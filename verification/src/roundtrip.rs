//! Decode/encode round-trip laws.
//!
//! The wire form written by the encoder is read back by the decoder: for
//! every well-formed stroke, parsing its encoding (wherever it sits in a
//! buffer) yields the stroke itself, so decoding a framed stroke block and
//! re-encoding it reproduces the original bytes exactly; the same holds
//! for unrecognised blocks and, block by block, for whole page files.  The
//! laws carry the conditions under which the wire form is canonical: the
//! id bytes may not collide with the delimiter that ends their field, and
//! a placeholder stroke's done word is the fixed placeholder value.

use vstd::prelude::*;

use crate::encode::{
    PLACEHOLDER_DONE, lemma_encode_line_detail_len, lemma_encode_points_len, sp_encode_block,
    sp_encode_id, sp_encode_line, sp_encode_line_detail, sp_encode_line_ids, sp_encode_point,
    sp_encode_points,
};
use crate::parse::{
    pad3, sp_parse_block, sp_parse_id_field, sp_parse_line, sp_parse_line_detail, sp_parse_point,
    sp_parse_points,
};
use crate::types::{RMError, SpecBlock, SpecLine, spec_line_wf};
use crate::wire::{
    TAG_DONE, TAG_ID_1, TAG_ID_2, TAG_ID_3, flag_layer_def, flag_layer_info, flag_layer_name,
    flag_line, flag_text_def,
};

verus! {

/// Every byte of a subrange equality, read back at its absolute position.
proof fn lemma_eq_sub(s: Seq<u8>, a: int, b: int, x: Seq<u8>)
    requires
        0 <= a <= b <= s.len(),
        s.subrange(a, b) == x,
    ensures
        forall|i: int| a <= i < b ==> #[trigger] s[i] == x[i - a],
{
    assert forall|i: int| a <= i < b implies #[trigger] s[i] == x[i - a] by {
        assert(s.subrange(a, b)[i - a] == x[i - a]);
    }
}

/// The wire bytes of a compact id stay clear of the delimiter that ends
/// its field, so the scan that reads it back stops exactly at the
/// delimiter.
pub open spec fn id_sep(id: Seq<u8>, next: u8) -> bool {
    &&& id[0] != next
    &&& id[1] != next
    &&& (id[2] != 0 ==> id[2] != next)
}

/// Parsing an encoded compact id that sits between its two sentinels gives
/// back the id and stops on the closing sentinel.
proof fn lemma_parse_encoded_id(
    s: Seq<u8>,
    pos: int,
    end: int,
    this_tag: u8,
    next_tag: u8,
    id: Seq<u8>,
)
    requires
        id.len() == 3,
        id_sep(id, next_tag),
        0 <= pos,
        pos + 1 + sp_encode_id(id).len() < end <= s.len(),
        s[pos] == this_tag,
        s.subrange(pos + 1, pos + 1 + sp_encode_id(id).len() as int) == sp_encode_id(id),
        s[pos + 1 + sp_encode_id(id).len() as int] == next_tag,
    ensures
        sp_parse_id_field(s, pos, end, this_tag, next_tag) == Ok::<(Seq<u8>, int), RMError>(
            (id, pos + 1 + sp_encode_id(id).len() as int),
        ),
{
    let k = sp_encode_id(id).len() as int;
    let start = pos + 1;
    lemma_eq_sub(s, start, start + k, sp_encode_id(id));
    assert(s[start] == id[0]);
    assert(s[start + 1] == id[1]);
    if id[2] == 0 {
        assert(k == 2);
        assert(s[start + 2] == next_tag);
        assert(pad3(s.subrange(start, start + 2)) =~= id);
    } else {
        assert(k == 3);
        assert(s[start + 2] == id[2]);
        assert(s[start + 3] == next_tag);
        assert(pad3(s.subrange(start, start + 3)) =~= id);
    }
}

/// Parsing an encoded point record gives back the point.
proof fn lemma_parse_encoded_point(s: Seq<u8>, pos: int, end: int, p: crate::types::Point)
    requires
        0 <= pos,
        pos + 14 <= end <= s.len(),
        s.subrange(pos, pos + 14) == sp_encode_point(p),
    ensures
        sp_parse_point(s, pos, end) == Ok::<(crate::types::Point, int), RMError>((p, pos + 14)),
{
    vstd::bytes::lemma_auto_spec_u32_to_from_le_bytes();
    lemma_eq_sub(s, pos, pos + 14, sp_encode_point(p));
    assert(s.subrange(pos, pos + 4) =~= vstd::bytes::spec_u32_to_le_bytes(p.x));
    assert(s.subrange(pos + 4, pos + 8) =~= vstd::bytes::spec_u32_to_le_bytes(p.y));
    assert(s[pos + 8] == p.speed);
    assert(s[pos + 9] == 0);
    assert(s[pos + 10] == p.width);
    assert(s[pos + 11] == 0);
    assert(s[pos + 12] == p.direction);
    assert(s[pos + 13] == p.pressure);
}

/// Parsing the encoding of a run of points gives back the run.
proof fn lemma_parse_encoded_points(s: Seq<u8>, pos: int, end: int, pts: Seq<crate::types::Point>)
    requires
        0 <= pos,
        pos + 14 * pts.len() <= end <= s.len(),
        pts.len() <= 0xffff_ffff,
        s.subrange(pos, pos + 14 * pts.len()) == sp_encode_points(pts),
    ensures
        sp_parse_points(s, pos, end, pts.len() as u32) == Ok::<
            (Seq<crate::types::Point>, int),
            RMError,
        >((pts, pos + 14 * pts.len())),
    decreases pts.len(),
{
    lemma_encode_points_len(pts);
    if pts.len() == 0 {
        assert(pts =~= Seq::<crate::types::Point>::empty());
    } else {
        lemma_encode_points_len(pts.drop_first());
        lemma_eq_sub(s, pos, pos + 14 * pts.len(), sp_encode_points(pts));
        assert(s.subrange(pos, pos + 14) =~= sp_encode_point(pts[0])) by {
            lemma_eq_sub(s, pos, pos + 14 * pts.len(), sp_encode_points(pts));
        }
        lemma_parse_encoded_point(s, pos, end, pts[0]);
        assert(s.subrange(pos + 14, pos + 14 + 14 * pts.drop_first().len()) =~= sp_encode_points(
            pts.drop_first(),
        ));
        lemma_parse_encoded_points(s, pos + 14, end, pts.drop_first());
        assert((pts.len() as u32 - 1) as u32 == pts.drop_first().len() as u32);
        assert(seq![pts[0]] + pts.drop_first() =~= pts);
    }
}

/// Parsing the encoding of a detail region, bounded exactly by the
/// region's declared end, gives back its fields and consumes it whole.
#[verifier::rlimit(100)]
proof fn lemma_parse_encoded_detail(
    s: Seq<u8>,
    pos: int,
    pen: u32,
    color: u32,
    brush: u32,
    pts: Seq<crate::types::Point>,
)
    requires
        0 <= pos,
        14 * pts.len() + 59 <= 0xffff_ffff,
        pos + 33 + 14 * pts.len() <= s.len(),
        s.subrange(pos, pos + 33 + 14 * pts.len()) == sp_encode_line_detail(
            pen,
            color,
            brush,
            pts,
        ),
    ensures
        sp_parse_line_detail(s, pos, pos + 33 + 14 * pts.len()) == Ok::<
            ((u32, u32, u32, Seq<crate::types::Point>), int),
            RMError,
        >(((pen, color, brush, pts), pos + 33 + 14 * pts.len())),
{
    vstd::bytes::lemma_auto_spec_u32_to_from_le_bytes();
    lemma_encode_points_len(pts);
    lemma_encode_line_detail_len(pen, color, brush, pts);
    let n = pts.len() as int;
    let end = pos + 33 + 14 * n;
    let d = sp_encode_line_detail(pen, color, brush, pts);
    lemma_eq_sub(s, pos, end, d);
    assert(s[pos] == crate::wire::TAG_PEN_1);
    assert(s[pos + 1] == crate::wire::TAG_PEN_2);
    assert(s.subrange(pos + 2, pos + 6) =~= vstd::bytes::spec_u32_to_le_bytes(pen));
    assert(s[pos + 6] == crate::wire::TAG_WORD);
    assert(s.subrange(pos + 7, pos + 11) =~= vstd::bytes::spec_u32_to_le_bytes(color));
    assert(s[pos + 11] == crate::wire::TAG_BRUSH);
    assert(s[pos + 12] == 0);
    assert(s[pos + 13] == 0);
    assert(s[pos + 14] == 0);
    assert(s[pos + 15] == 0);
    assert(s.subrange(pos + 16, pos + 20) =~= vstd::bytes::spec_u32_to_le_bytes(brush));
    assert(s[pos + 20] == crate::wire::TAG_POINTS);
    assert(s[pos + 21] == 0);
    assert(s[pos + 22] == 0);
    assert(s[pos + 23] == 0);
    assert(s[pos + 24] == 0);
    assert(s[pos + 25] == crate::wire::TAG_POINTS_2);
    assert(s.subrange(pos + 26, pos + 30) =~= vstd::bytes::spec_u32_to_le_bytes(
        (14 * pts.len()) as u32,
    ));
    assert((14 * pts.len()) as u32 / 14 == pts.len() as u32) by (nonlinear_arith)
        requires
            14 * pts.len() + 59 <= 0xffff_ffff,
    ;
    assert(s.subrange(pos + 30, pos + 30 + 14 * n) =~= sp_encode_points(pts));
    lemma_parse_encoded_points(s, pos + 30, end, pts);
    assert(s[pos + 30 + 14 * n] == crate::wire::TAG_TRAILER);
    assert(s[pos + 31 + 14 * n] == 0);
    assert(s[pos + 32 + 14 * n] == 1);
}

/// A stroke whose encoding decodes back to itself: well formed, within the
/// length bounds of the framing, with id bytes clear of their delimiters.
pub open spec fn spec_line_roundtrippable(l: SpecLine) -> bool {
    &&& spec_line_wf(l)
    &&& 14 * l.points.len() + 59 <= 0xffff_ffff
    &&& id_sep(l.layer_id, TAG_ID_1)
    &&& id_sep(l.line_id, TAG_ID_2)
    &&& id_sep(l.last_line_id, TAG_ID_3)
    &&& id_sep(l.id_field_0, TAG_DONE)
}

/// Parsing the four sentinel-tagged compact ids of an encoded stroke
/// prefix gives each id back and lands on the done-word sentinel.
#[verifier::rlimit(100)]
proof fn lemma_parse_encoded_line_ids(s: Seq<u8>, pos: int, end: int, l: SpecLine)
    requires
        spec_line_roundtrippable(l),
        0 <= pos,
        pos + sp_encode_line_ids(l).len() <= end <= s.len(),
        s.subrange(pos, pos + sp_encode_line_ids(l).len() as int) == sp_encode_line_ids(l),
    ensures
        ({
            let k1 = sp_encode_id(l.layer_id).len() as int;
            let k2 = sp_encode_id(l.line_id).len() as int;
            let k3 = sp_encode_id(l.last_line_id).len() as int;
            let k4 = sp_encode_id(l.id_field_0).len() as int;
            let o1 = pos + 1 + k1;
            let o2 = o1 + 1 + k2;
            let o3 = o2 + 1 + k3;
            let o4 = o3 + 1 + k4;
            &&& sp_encode_line_ids(l).len() == 5 + k1 + k2 + k3 + k4
            &&& sp_parse_id_field(s, pos, end, crate::wire::TAG_ID_0, TAG_ID_1) == Ok::<
                (Seq<u8>, int),
                RMError,
            >((l.layer_id, o1))
            &&& sp_parse_id_field(s, o1, end, TAG_ID_1, TAG_ID_2) == Ok::<(Seq<u8>, int), RMError>(
                (l.line_id, o2),
            )
            &&& sp_parse_id_field(s, o2, end, TAG_ID_2, TAG_ID_3) == Ok::<(Seq<u8>, int), RMError>(
                (l.last_line_id, o3),
            )
            &&& sp_parse_id_field(s, o3, end, TAG_ID_3, TAG_DONE) == Ok::<(Seq<u8>, int), RMError>(
                (l.id_field_0, o4),
            )
            &&& crate::wire::sp_expect(s, o4, end, TAG_DONE) == Ok::<int, RMError>(o4 + 1)
        }),
{
    let e = sp_encode_line_ids(l);
    let k1 = sp_encode_id(l.layer_id).len() as int;
    let k2 = sp_encode_id(l.line_id).len() as int;
    let k3 = sp_encode_id(l.last_line_id).len() as int;
    let k4 = sp_encode_id(l.id_field_0).len() as int;
    lemma_eq_sub(s, pos, pos + e.len(), e);
    let o1 = pos + 1 + k1;
    let o2 = o1 + 1 + k2;
    let o3 = o2 + 1 + k3;
    let o4 = o3 + 1 + k4;
    assert(s[pos] == crate::wire::TAG_ID_0);
    assert(s.subrange(pos + 1, pos + 1 + k1) =~= sp_encode_id(l.layer_id));
    assert(s[o1] == TAG_ID_1);
    lemma_parse_encoded_id(s, pos, end, crate::wire::TAG_ID_0, TAG_ID_1, l.layer_id);
    assert(s.subrange(o1 + 1, o1 + 1 + k2) =~= sp_encode_id(l.line_id));
    assert(s[o2] == TAG_ID_2);
    lemma_parse_encoded_id(s, o1, end, TAG_ID_1, TAG_ID_2, l.line_id);
    assert(s.subrange(o2 + 1, o2 + 1 + k3) =~= sp_encode_id(l.last_line_id));
    assert(s[o3] == TAG_ID_3);
    lemma_parse_encoded_id(s, o2, end, TAG_ID_2, TAG_ID_3, l.last_line_id);
    assert(s.subrange(o3 + 1, o3 + 1 + k4) =~= sp_encode_id(l.id_field_0));
    assert(s[o4] == TAG_DONE);
    lemma_parse_encoded_id(s, o3, end, TAG_ID_3, TAG_DONE, l.id_field_0);
}

/// Parsing the encoding of a detail-bearing stroke consumes it whole and
/// gives back the stroke.
#[verifier::rlimit(100)]
#[verifier::spinoff_prover]
proof fn lemma_parse_encoded_line_some(s: Seq<u8>, pos: int, end: int, l: SpecLine)
    requires
        spec_line_roundtrippable(l),
        l.pen_type is Some,
        0 <= pos,
        pos + sp_encode_line(l).len() <= end <= s.len(),
        s.subrange(pos, pos + sp_encode_line(l).len() as int) == sp_encode_line(l),
    ensures
        sp_parse_line(s, pos, end) == Ok::<(SpecLine, int), RMError>(
            (l, pos + sp_encode_line(l).len() as int),
        ),
{
    vstd::bytes::lemma_auto_spec_u32_to_from_le_bytes();
    let e = sp_encode_line(l);
    let ids = sp_encode_line_ids(l);
    let pen = l.pen_type.unwrap();
    let color = l.color.unwrap();
    let brush = l.brush_size.unwrap();
    let detail = sp_encode_line_detail(pen, color, brush, l.points);
    lemma_encode_line_detail_len(pen, color, brush, l.points);
    let o5 = pos + ids.len() as int;
    let p8 = o5 + 9;
    assert(e == ids + vstd::bytes::spec_u32_to_le_bytes(0) + seq![crate::wire::TAG_DETAIL]
        + vstd::bytes::spec_u32_to_le_bytes(detail.len() as u32) + detail);
    assert(e.len() == ids.len() + 9 + detail.len());
    assert(s.subrange(pos, pos + ids.len() as int) =~= ids) by {
        lemma_eq_sub(s, pos, pos + e.len(), e);
    }
    lemma_parse_encoded_line_ids(s, pos, end, l);
    assert(s.subrange(o5, o5 + 4) =~= vstd::bytes::spec_u32_to_le_bytes(0)) by {
        lemma_eq_sub(s, pos, pos + e.len(), e);
    }
    assert(s[o5 + 4] == crate::wire::TAG_DETAIL) by {
        lemma_eq_sub(s, pos, pos + e.len(), e);
    }
    assert(s.subrange(o5 + 5, o5 + 9) =~= vstd::bytes::spec_u32_to_le_bytes(detail.len() as u32))
        by {
        lemma_eq_sub(s, pos, pos + e.len(), e);
    }
    assert(s.subrange(p8, p8 + detail.len()) =~= detail) by {
        lemma_eq_sub(s, pos, pos + e.len(), e);
    }
    lemma_parse_encoded_detail(s, p8, pen, color, brush, l.points);
    assert(p8 + detail.len() == pos + e.len());
}

/// Parsing the encoding of a placeholder stroke gives back the stroke and
/// stops before the trailer.
#[verifier::rlimit(100)]
#[verifier::spinoff_prover]
proof fn lemma_parse_encoded_line_none(s: Seq<u8>, pos: int, end: int, l: SpecLine)
    requires
        spec_line_roundtrippable(l),
        l.pen_type is None,
        0 <= pos,
        pos + sp_encode_line(l).len() <= end <= s.len(),
        s.subrange(pos, pos + sp_encode_line(l).len() as int) == sp_encode_line(l),
    ensures
        sp_parse_line(s, pos, end) == Ok::<(SpecLine, int), RMError>(
            (l, pos + sp_encode_line(l).len() as int - 3),
        ),
{
    vstd::bytes::lemma_auto_spec_u32_to_from_le_bytes();
    let e = sp_encode_line(l);
    let ids = sp_encode_line_ids(l);
    let o5 = pos + ids.len() as int;
    assert(e == ids + vstd::bytes::spec_u32_to_le_bytes(PLACEHOLDER_DONE) + seq![
        crate::wire::TAG_TRAILER,
        0u8,
        1u8,
    ]);
    assert(e.len() == ids.len() + 7);
    assert(s.subrange(pos, pos + ids.len() as int) =~= ids) by {
        lemma_eq_sub(s, pos, pos + e.len(), e);
    }
    lemma_parse_encoded_line_ids(s, pos, end, l);
    assert(s.subrange(o5, o5 + 4) =~= vstd::bytes::spec_u32_to_le_bytes(PLACEHOLDER_DONE)) by {
        lemma_eq_sub(s, pos, pos + e.len(), e);
    }
    assert(l.points =~= Seq::<crate::types::Point>::empty());
}

/// The type flags of the five recognised block kinds are pairwise
/// distinct, and a stroke's flag is none of the other four.
proof fn lemma_line_flag_distinct()
    ensures
        flag_line() != flag_layer_def(),
        flag_line() != flag_layer_name(),
        flag_line() != flag_text_def(),
        flag_line() != flag_layer_info(),
{
    assert(flag_line()[1] == 2 && flag_layer_def()[1] == 1);
    assert(flag_line()[1] == 2 && flag_layer_name()[1] == 1);
    assert(flag_line()[1] == 2 && flag_text_def()[1] == 1);
    assert(flag_line()[1] == 2 && flag_layer_info()[1] == 1);
}

/// Parsing the framed encoding of a stroke block, wherever it sits in a
/// buffer, gives back the stroke block and consumes exactly its frame.
#[verifier::rlimit(100)]
pub proof fn lemma_parse_encoded_line_block(s: Seq<u8>, pos: int, end: int, l: SpecLine)
    requires
        spec_line_roundtrippable(l),
        0 <= pos,
        sp_encode_block(SpecBlock::Line(l)) matches Ok(framed) && pos + framed.len() <= end
            <= s.len() && s.subrange(pos, pos + framed.len() as int) == framed,
    ensures
        sp_parse_block(s, pos, end) == Ok::<(SpecBlock, int), RMError>(
            (SpecBlock::Line(l), pos + sp_encode_block(SpecBlock::Line(l)).unwrap().len() as int),
        ),
{
    vstd::bytes::lemma_auto_spec_u32_to_from_le_bytes();
    let body = sp_encode_line(l);
    crate::encode::lemma_encode_line_len(l);
    let framed = sp_encode_block(SpecBlock::Line(l)).unwrap();
    assert(framed.len() == 8 + body.len());
    lemma_eq_sub(s, pos, pos + framed.len(), framed);
    assert(s.subrange(pos, pos + 4) =~= vstd::bytes::spec_u32_to_le_bytes(body.len() as u32));
    assert(s.subrange(pos + 4, pos + 8) =~= flag_line());
    lemma_line_flag_distinct();
    assert(s.subrange(pos + 8, pos + 8 + body.len() as int) =~= body);
    if l.pen_type is Some {
        lemma_parse_encoded_line_some(s, pos + 8, pos + 8 + body.len() as int, l);
    } else {
        lemma_parse_encoded_line_none(s, pos + 8, pos + 8 + body.len() as int, l);
    }
}

/// An unrecognised block whose encoding decodes back to itself: a 4-byte
/// flag that is none of the recognised flags, and a body within the length
/// prefix's range.
pub open spec fn spec_unknown_roundtrippable(flag: Seq<u8>, body: Seq<u8>) -> bool {
    &&& flag.len() == 4
    &&& flag != flag_layer_def()
    &&& flag != flag_layer_name()
    &&& flag != flag_text_def()
    &&& flag != flag_layer_info()
    &&& flag != flag_line()
    &&& body.len() <= 0xffff_ffff
}

/// Parsing the framed encoding of an unrecognised block gives back its
/// flag and body verbatim and consumes exactly its frame.
#[verifier::rlimit(100)]
pub proof fn lemma_parse_encoded_unknown_block(
    s: Seq<u8>,
    pos: int,
    end: int,
    flag: Seq<u8>,
    body: Seq<u8>,
)
    requires
        spec_unknown_roundtrippable(flag, body),
        0 <= pos,
        sp_encode_block(SpecBlock::Unknown(flag, body)) matches Ok(framed) && pos + framed.len()
            <= end <= s.len() && s.subrange(pos, pos + framed.len() as int) == framed,
    ensures
        sp_parse_block(s, pos, end) == Ok::<(SpecBlock, int), RMError>(
            (SpecBlock::Unknown(flag, body), pos + 8 + body.len() as int),
        ),
{
    vstd::bytes::lemma_auto_spec_u32_to_from_le_bytes();
    let framed = sp_encode_block(SpecBlock::Unknown(flag, body)).unwrap();
    assert(framed.len() == 8 + body.len());
    lemma_eq_sub(s, pos, pos + framed.len(), framed);
    assert(s.subrange(pos, pos + 4) =~= vstd::bytes::spec_u32_to_le_bytes(body.len() as u32));
    assert(s.subrange(pos + 4, pos + 8) =~= flag);
    assert(s.subrange(pos + 8, pos + 8 + body.len() as int) =~= body);
}

/// Decode-then-encode identity for stroke blocks: wherever a buffer begins
/// with the framed encoding of a stroke, decoding that block and
/// re-encoding the decoded stroke reproduces exactly the bytes the block
/// occupied, whatever follows them in the buffer.
pub proof fn lemma_line_block_round_trip(l: SpecLine, tail: Seq<u8>)
    requires
        spec_line_roundtrippable(l),
    ensures
        sp_encode_block(SpecBlock::Line(l)) is Ok,
        ({
            let framed = sp_encode_block(SpecBlock::Line(l)).unwrap();
            let buf = framed + tail;
            &&& sp_parse_block(buf, 0, buf.len() as int) == Ok::<(SpecBlock, int), RMError>(
                (SpecBlock::Line(l), framed.len() as int),
            )
            &&& sp_encode_block(SpecBlock::Line(l)) == Ok::<Seq<u8>, RMError>(
                buf.subrange(0, framed.len() as int),
            )
        }),
{
    let framed = sp_encode_block(SpecBlock::Line(l)).unwrap();
    let buf = framed + tail;
    assert(buf.subrange(0, framed.len() as int) =~= framed);
    lemma_parse_encoded_line_block(buf, 0, buf.len() as int, l);
}

/// A block whose framed encoding decodes back to itself.
pub open spec fn spec_block_roundtrippable(b: SpecBlock) -> bool {
    match b {
        SpecBlock::Line(l) => spec_line_roundtrippable(l),
        SpecBlock::Unknown(flag, body) => spec_unknown_roundtrippable(flag, body),
        _ => false,
    }
}

/// A run of round-trippable blocks encodes without failure.
pub proof fn lemma_encode_blocks_ok(blocks: Seq<SpecBlock>)
    requires
        forall|i: int| 0 <= i < blocks.len() ==> spec_block_roundtrippable(#[trigger] blocks[i]),
    ensures
        crate::encode::sp_encode_blocks(blocks) is Ok,
    decreases blocks.len(),
{
    if blocks.len() > 0 {
        assert(spec_block_roundtrippable(blocks[0]));
        assert(forall|i: int| 0 <= i < blocks.drop_first().len()
            ==> spec_block_roundtrippable(#[trigger] blocks.drop_first()[i]));
        lemma_encode_blocks_ok(blocks.drop_first());
    }
}

/// Parsing the concatenated framed encodings of a run of round-trippable
/// blocks, bounded exactly by the run's end, gives back the run.
#[verifier::rlimit(100)]
#[verifier::spinoff_prover]
pub proof fn lemma_parse_encoded_blocks(s: Seq<u8>, pos: int, end: int, blocks: Seq<SpecBlock>)
    requires
        forall|i: int| 0 <= i < blocks.len() ==> spec_block_roundtrippable(#[trigger] blocks[i]),
        0 <= pos <= end <= s.len(),
        crate::encode::sp_encode_blocks(blocks) matches Ok(bs) && end == pos + bs.len()
            && s.subrange(pos, end) == bs,
    ensures
        crate::parse::sp_parse_blocks(s, pos, end) == Ok::<(Seq<SpecBlock>, int), RMError>(
            (blocks, end),
        ),
    decreases blocks.len(),
{
    vstd::bytes::lemma_auto_spec_u32_to_from_le_bytes();
    let bs = crate::encode::sp_encode_blocks(blocks).unwrap();
    if blocks.len() == 0 {
        assert(end == pos);
        assert(blocks =~= Seq::<SpecBlock>::empty());
    } else {
        assert(spec_block_roundtrippable(blocks[0]));
        assert forall|i: int| 0 <= i < blocks.drop_first().len() implies spec_block_roundtrippable(
            #[trigger] blocks.drop_first()[i],
        ) by {
            assert(blocks.drop_first()[i] == blocks[i + 1]);
        }
        lemma_encode_blocks_ok(blocks.drop_first());
        let framed = sp_encode_block(blocks[0]).unwrap();
        let rest = crate::encode::sp_encode_blocks(blocks.drop_first()).unwrap();
        assert(bs == framed + rest);
        let fl = framed.len() as int;
        assert(s.subrange(pos, pos + fl) =~= framed) by {
            lemma_eq_sub(s, pos, end, bs);
        }
        assert(s.subrange(pos + fl, end) =~= rest) by {
            lemma_eq_sub(s, pos, end, bs);
        }
        match blocks[0] {
            SpecBlock::Line(l) => {
                crate::encode::lemma_encode_line_len(l);
                assert(fl == 8 + sp_encode_line(l).len());
                lemma_parse_encoded_line_block(s, pos, end, l);
            },
            SpecBlock::Unknown(flag, body) => {
                assert(fl == 8 + body.len());
                lemma_parse_encoded_unknown_block(s, pos, end, flag, body);
            },
            _ => {},
        }
        lemma_parse_encoded_blocks(s, pos + fl, end, blocks.drop_first());
        assert(seq![blocks[0]] + blocks.drop_first() =~= blocks);
    }
}


/// Decode-then-encode identity for whole page files: a notebook made of
/// round-trippable blocks encodes to bytes that decode back to exactly the
/// same notebook.
pub proof fn lemma_notebook_round_trip(nb: crate::types::SpecNotebook)
    requires
        crate::encode::spec_frontmatter_wf(nb.frontmatter),
        nb.blocks.len() > 0,
        forall|i: int| 0 <= i < nb.blocks.len() ==> spec_block_roundtrippable(
            #[trigger] nb.blocks[i],
        ),
    ensures
        crate::encode::sp_encode_notebook(nb) is Ok,
        crate::parse::sp_parse_full(crate::encode::sp_encode_notebook(nb).unwrap()) == Ok::<
            crate::types::SpecNotebook,
            RMError,
        >(nb),
{
    lemma_encode_blocks_ok(nb.blocks);
    let fm = crate::encode::sp_encode_frontmatter(nb.frontmatter);
    let bs = crate::encode::sp_encode_blocks(nb.blocks).unwrap();
    let s = crate::encode::sp_encode_notebook(nb).unwrap();
    assert(s == fm + bs);
    assert(fm.len() == 163);
    assert(s.subrange(0, 32) =~= crate::wire::spec_header_text());
    assert(s[32] == nb.frontmatter.version + 48);
    assert(crate::parse::sp_parse_version(s) == Ok::<u8, RMError>(nb.frontmatter.version));
    assert(s.subrange(33, 163) =~= nb.frontmatter.unknown);
    assert(s.subrange(163, s.len() as int) =~= bs);
    lemma_parse_encoded_blocks(s, 163, s.len() as int, nb.blocks);
    assert(crate::types::SpecFrontmatter {
        version: nb.frontmatter.version,
        unknown: s.subrange(33, 163),
    } == nb.frontmatter);
}

/// Every stroke the decoder produces is well formed: the pen type, color
/// and brush size are set together, and a stroke without them (a nonzero
/// done word on the wire) carries no points.
pub proof fn lemma_parse_line_wf(s: Seq<u8>, pos: int, end: int)
    ensures
        sp_parse_line(s, pos, end) matches Ok((l, _)) ==> spec_line_wf(l),
{
}

/// A stroke without pen settings encodes to exactly its id prefix, the
/// fixed placeholder done word, and the three-byte trailer — the
/// placeholder path, with no detail region.
pub proof fn lemma_placeholder_line_encoding(l: SpecLine)
    requires
        l.pen_type is None,
    ensures
        sp_encode_line(l) == sp_encode_line_ids(l) + vstd::bytes::spec_u32_to_le_bytes(
            PLACEHOLDER_DONE,
        ) + seq![crate::wire::TAG_TRAILER, 0u8, 1u8],
{
}

/// A declared block length that exceeds the remaining buffer is a typed
/// truncation failure: the decoder reports it and reads nothing past the
/// end.
pub proof fn lemma_block_length_truncation(s: Seq<u8>, pos: int, end: int)
    requires
        0 <= pos,
        pos + 8 <= end <= s.len(),
        end - (pos + 8) < vstd::bytes::spec_u32_from_le_bytes(s.subrange(pos, pos + 4)),
    ensures
        sp_parse_block(s, pos, end) == Err::<(SpecBlock, int), RMError>(
            RMError::TruncatedInput {
                offset: (pos + 8) as usize,
                needed: vstd::bytes::spec_u32_from_le_bytes(s.subrange(pos, pos + 4)) as usize,
            },
        ),
{
}

} // verus!

