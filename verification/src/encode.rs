//! Encoder for page-file blocks.
//!
//! The encoder emits the exact sentinel layout that the decoder consumes;
//! every length prefix is computed from the bytes actually emitted.  Stroke
//! blocks and unrecognised blocks are written losslessly; the remaining
//! variants have no encoder yet and yield a typed error instead of being
//! dropped silently.

use vstd::prelude::*;

use crate::types::{
    Block, BlockKind, Frontmatter, IdField, Line, Notebook, Point, RMError, SpecBlock,
    SpecFrontmatter, SpecLine, SpecNotebook, spec_line_encodable, spec_line_wf,
};
use crate::wire::{
    TAG_BRUSH, TAG_DETAIL, TAG_DONE, TAG_ID_0, TAG_ID_1, TAG_ID_2, TAG_ID_3, TAG_PEN_1, TAG_PEN_2,
    TAG_POINTS, TAG_POINTS_2, TAG_TRAILER, TAG_WORD, flag_line, spec_header_text,
    header_text_bytes,
};

verus! {

/// The done word written for a placeholder stroke (one with no detail
/// region); any nonzero word on the wire marks such a stroke.
pub const PLACEHOLDER_DONE: u32 = 1;

/// Appends a borrowed byte slice to an output buffer.
pub fn append_bytes(out: &mut Vec<u8>, src: &[u8])
    ensures
        final(out)@ == old(out)@ + src@,
{
    let mut i: usize = 0;
    while i < src.len()
        invariant
            i <= src@.len(),
            out@ == old(out)@ + src@.subrange(0, i as int),
        decreases src@.len() - i,
    {
        out.push(src[i]);
        i = i + 1;
        proof {
            assert(out@ =~= old(out)@ + src@.subrange(0, i as int));
        }
    }
    proof {
        assert(old(out)@ + src@.subrange(0, src@.len() as int) =~= old(out)@ + src@);
    }
}

/// The wire form of a compact id: the first two bytes always, the third
/// only when it is nonzero.
pub open spec fn sp_encode_id(id: Seq<u8>) -> Seq<u8>
    recommends
        id.len() == 3,
{
    if id[2] == 0 {
        seq![id[0], id[1]]
    } else {
        seq![id[0], id[1], id[2]]
    }
}

/// Encodes a compact id: exactly 2 bytes when the third byte is zero,
/// exactly 3 bytes otherwise.
pub fn encode_id_field(id: &IdField) -> (r: Vec<u8>)
    ensures
        r@ == sp_encode_id(id@),
        id@[2] == 0 ==> r@.len() == 2,
        id@[2] != 0 ==> r@.len() == 3,
{
    let mut out: Vec<u8> = Vec::new();
    out.push(id.0[0]);
    out.push(id.0[1]);
    if id.0[2] > 0 {
        out.push(id.0[2]);
    }
    proof {
        assert(out@ =~= sp_encode_id(id@));
    }
    out
}

/// The 14-byte wire form of one point record.
pub open spec fn sp_encode_point(p: Point) -> Seq<u8> {
    vstd::bytes::spec_u32_to_le_bytes(p.x) + vstd::bytes::spec_u32_to_le_bytes(p.y) + seq![
        p.speed,
        0u8,
        p.width,
        0u8,
        p.direction,
        p.pressure,
    ]
}

/// Encodes one point record.
pub fn encode_point(p: &Point) -> (r: Vec<u8>)
    ensures
        r@ == sp_encode_point(*p),
        r@.len() == 14,
{
    let mut out = vstd::bytes::u32_to_le_bytes(p.x);
    let mut yb = vstd::bytes::u32_to_le_bytes(p.y);
    out.append(&mut yb);
    out.push(p.speed);
    out.push(0);
    out.push(p.width);
    out.push(0);
    out.push(p.direction);
    out.push(p.pressure);
    proof {
        assert(out@ =~= sp_encode_point(*p));
    }
    out
}

/// The concatenated wire form of a run of point records.
pub open spec fn sp_encode_points(pts: Seq<Point>) -> Seq<u8>
    decreases pts.len(),
{
    if pts.len() == 0 {
        Seq::empty()
    } else {
        sp_encode_point(pts[0]) + sp_encode_points(pts.drop_first())
    }
}

/// Appending one point to a run appends its 14 bytes to the encoding.
pub proof fn lemma_encode_points_push(pts: Seq<Point>, p: Point)
    ensures
        sp_encode_points(pts.push(p)) == sp_encode_points(pts) + sp_encode_point(p),
    decreases pts.len(),
{
    if pts.len() == 0 {
        reveal_with_fuel(sp_encode_points, 2);
        assert(pts.push(p)[0] == p);
        assert(pts.push(p).drop_first() =~= Seq::<Point>::empty());
        assert(sp_encode_points(pts.push(p)) == sp_encode_point(p) + sp_encode_points(
            pts.push(p).drop_first(),
        ));
        assert(sp_encode_point(p) + Seq::<u8>::empty() =~= sp_encode_point(p));
        assert(Seq::<u8>::empty() + sp_encode_point(p) =~= sp_encode_point(p));
    } else {
        assert(pts.push(p)[0] == pts[0]);
        assert(pts.push(p).drop_first() =~= pts.drop_first().push(p));
        lemma_encode_points_push(pts.drop_first(), p);
        assert(sp_encode_point(pts[0]) + (sp_encode_points(pts.drop_first()) + sp_encode_point(p))
            =~= (sp_encode_point(pts[0]) + sp_encode_points(pts.drop_first())) + sp_encode_point(
            p,
        ));
    }
}

/// A run of `n` points encodes to exactly `14 * n` bytes.
pub proof fn lemma_encode_points_len(pts: Seq<Point>)
    ensures
        sp_encode_points(pts).len() == 14 * pts.len(),
    decreases pts.len(),
{
    vstd::bytes::lemma_auto_spec_u32_to_from_le_bytes();
    if pts.len() == 0 {
    } else {
        lemma_encode_points_len(pts.drop_first());
    }
}

/// The wire form of a stroke's detail region: pen type, color, brush bits,
/// the point array with its byte-count prefix, and the three-byte trailer.
pub open spec fn sp_encode_line_detail(pen: u32, color: u32, brush: u32, pts: Seq<Point>) -> Seq<
    u8,
> {
    seq![TAG_PEN_1, TAG_PEN_2] + vstd::bytes::spec_u32_to_le_bytes(pen) + seq![TAG_WORD]
        + vstd::bytes::spec_u32_to_le_bytes(color) + seq![TAG_BRUSH, 0u8, 0u8, 0u8, 0u8]
        + vstd::bytes::spec_u32_to_le_bytes(brush) + seq![
        TAG_POINTS,
        0u8,
        0u8,
        0u8,
        0u8,
        TAG_POINTS_2,
    ] + vstd::bytes::spec_u32_to_le_bytes((14 * pts.len()) as u32) + sp_encode_points(pts) + seq![
        TAG_TRAILER,
        0u8,
        1u8,
    ]
}

/// The sentinel-tagged id prefix of a stroke record, up to and including
/// the done-word sentinel.
pub open spec fn sp_encode_line_ids(l: SpecLine) -> Seq<u8> {
    seq![TAG_ID_0] + sp_encode_id(l.layer_id) + seq![TAG_ID_1] + sp_encode_id(l.line_id) + seq![
        TAG_ID_2,
    ] + sp_encode_id(l.last_line_id) + seq![TAG_ID_3] + sp_encode_id(l.id_field_0) + seq![TAG_DONE]
}

/// The full wire form of one stroke record: the four sentinel-tagged ids
/// and the done word, then either the length-prefixed detail region (done
/// zero) or the placeholder trailer alone.
pub open spec fn sp_encode_line(l: SpecLine) -> Seq<u8>
    recommends
        spec_line_encodable(l),
{
    let ids = sp_encode_line_ids(l);
    match (l.pen_type, l.color, l.brush_size) {
        (Some(pen), Some(color), Some(brush)) => {
            let detail = sp_encode_line_detail(pen, color, brush, l.points);
            ids + vstd::bytes::spec_u32_to_le_bytes(0) + seq![TAG_DETAIL]
                + vstd::bytes::spec_u32_to_le_bytes(detail.len() as u32) + detail
        },
        _ => { ids + vstd::bytes::spec_u32_to_le_bytes(PLACEHOLDER_DONE) + seq![
            TAG_TRAILER,
            0u8,
            1u8,
        ] },
    }
}

/// The detail region of an encodable stroke is `33 + 14 * n` bytes long.
pub proof fn lemma_encode_line_detail_len(pen: u32, color: u32, brush: u32, pts: Seq<Point>)
    ensures
        sp_encode_line_detail(pen, color, brush, pts).len() == 33 + 14 * pts.len(),
{
    vstd::bytes::lemma_auto_spec_u32_to_from_le_bytes();
    lemma_encode_points_len(pts);
}

/// Encodes one stroke record.
#[verifier::rlimit(60)]
pub fn encode_line(line: &Line) -> (r: Vec<u8>)
    requires
        spec_line_encodable(line@),
    ensures
        r@ == sp_encode_line(line@),
{
    let mut out: Vec<u8> = Vec::new();
    out.push(TAG_ID_0);
    let mut b0 = encode_id_field(&line.layer_id);
    out.append(&mut b0);
    out.push(TAG_ID_1);
    let mut b1 = encode_id_field(&line.line_id);
    out.append(&mut b1);
    out.push(TAG_ID_2);
    let mut b2 = encode_id_field(&line.last_line_id);
    out.append(&mut b2);
    out.push(TAG_ID_3);
    let mut b3 = encode_id_field(&line.id_field_0);
    out.append(&mut b3);
    out.push(TAG_DONE);
    match (line.pen_type, line.color, line.brush_size) {
        (Some(pen), Some(color), Some(brush)) => {
            let mut dw = vstd::bytes::u32_to_le_bytes(0);
            out.append(&mut dw);
            out.push(TAG_DETAIL);
            let mut rest: Vec<u8> = Vec::new();
            rest.push(TAG_PEN_1);
            rest.push(TAG_PEN_2);
            let mut w0 = vstd::bytes::u32_to_le_bytes(pen);
            rest.append(&mut w0);
            rest.push(TAG_WORD);
            let mut w1 = vstd::bytes::u32_to_le_bytes(color);
            rest.append(&mut w1);
            rest.push(TAG_BRUSH);
            rest.push(0);
            rest.push(0);
            rest.push(0);
            rest.push(0);
            let mut w2 = vstd::bytes::u32_to_le_bytes(brush);
            rest.append(&mut w2);
            rest.push(TAG_POINTS);
            rest.push(0);
            rest.push(0);
            rest.push(0);
            rest.push(0);
            rest.push(TAG_POINTS_2);
            let n = line.points.len();
            let plen: u32 = 14 * (n as u32);
            let mut w3 = vstd::bytes::u32_to_le_bytes(plen);
            rest.append(&mut w3);
            let ghost prefix = rest@;
            let mut i: usize = 0;
            while i < n
                invariant
                    i <= n == line.points@.len(),
                    rest@ == prefix + sp_encode_points(line.points@.take(i as int)),
                decreases n - i,
            {
                let mut pb = encode_point(&line.points[i]);
                rest.append(&mut pb);
                proof {
                    lemma_encode_points_push(line.points@.take(i as int), line.points@[i as int]);
                    assert(line.points@.take(i + 1) =~= line.points@.take(i as int).push(
                        line.points@[i as int],
                    ));
                    assert(prefix + (sp_encode_points(line.points@.take(i as int))
                        + sp_encode_point(line.points@[i as int])) =~= (prefix + sp_encode_points(
                        line.points@.take(i as int),
                    )) + sp_encode_point(line.points@[i as int]));
                }
                i = i + 1;
            }
            proof {
                assert(line.points@.take(n as int) =~= line.points@);
            }
            rest.push(TAG_TRAILER);
            rest.push(0);
            rest.push(1);
            proof {
                lemma_encode_line_detail_len(pen, color, brush, line.points@);
                assert(rest@ =~= sp_encode_line_detail(pen, color, brush, line.points@));
            }
            let dlen: u32 = rest.len() as u32;
            let mut w4 = vstd::bytes::u32_to_le_bytes(dlen);
            out.append(&mut w4);
            out.append(&mut rest);
            proof {
                assert(out@ =~= sp_encode_line(line@));
            }
        },
        _ => {
            let mut dw = vstd::bytes::u32_to_le_bytes(PLACEHOLDER_DONE);
            out.append(&mut dw);
            out.push(TAG_TRAILER);
            out.push(0);
            out.push(1);
            proof {
                assert(out@ =~= sp_encode_line(line@));
            }
        },
    }
    out
}

/// A block whose wire-level bounds fit the 32-bit length prefixes; only
/// such blocks are handed to the encoder.
pub open spec fn spec_block_bounded(b: SpecBlock) -> bool {
    match b {
        SpecBlock::Line(l) => spec_line_wf(l) && 14 * l.points.len() + 59 <= u32::MAX,
        SpecBlock::Unknown(flag, body) => flag.len() == 4 && body.len() <= u32::MAX,
        _ => true,
    }
}

/// An encodable stroke never exceeds the 32-bit block length prefix.
pub proof fn lemma_encode_line_len(l: SpecLine)
    requires
        spec_line_wf(l),
    ensures
        sp_encode_line(l).len() <= 59 + 14 * l.points.len(),
{
    vstd::bytes::lemma_auto_spec_u32_to_from_le_bytes();
    match (l.pen_type, l.color, l.brush_size) {
        (Some(pen), Some(color), Some(brush)) => {
            lemma_encode_line_detail_len(pen, color, brush, l.points);
        },
        _ => {},
    }
}

/// The framed wire form of one block: length word, 4-byte flag, body.
/// Strokes and unrecognised blocks encode losslessly; the other variants
/// have no encoder and yield the variant's name as a typed error.
pub open spec fn sp_encode_block(b: SpecBlock) -> Result<Seq<u8>, RMError> {
    match b {
        SpecBlock::Line(l) => {
            let body = sp_encode_line(l);
            Ok(vstd::bytes::spec_u32_to_le_bytes(body.len() as u32) + flag_line() + body)
        },
        SpecBlock::Unknown(flag, body) => Ok(
            vstd::bytes::spec_u32_to_le_bytes(body.len() as u32) + flag + body,
        ),
        SpecBlock::LayerDef(_) => Err(RMError::EncodeUnsupported { kind: BlockKind::LayerDef }),
        SpecBlock::TextDef(_) => Err(RMError::EncodeUnsupported { kind: BlockKind::TextDef }),
        SpecBlock::LayerName(_) => Err(RMError::EncodeUnsupported { kind: BlockKind::LayerName }),
        SpecBlock::LayerInfo(_) => Err(RMError::EncodeUnsupported { kind: BlockKind::LayerInfo }),
    }
}

/// Encodes one block with its length-and-flag framing.
pub fn encode_block(b: &Block) -> (r: Result<Vec<u8>, RMError>)
    requires
        spec_block_bounded(b@),
    ensures
        match (r, sp_encode_block(b@)) {
            (Ok(v), Ok(gv)) => v@ == gv,
            (Err(e), Err(ge)) => e == ge,
            _ => false,
        },
{
    match b {
        Block::Line(l) => {
            proof {
                lemma_encode_line_len(l@);
            }
            let mut body = encode_line(l);
            let mut out = vstd::bytes::u32_to_le_bytes(body.len() as u32);
            out.push(0);
            out.push(2);
            out.push(2);
            out.push(5);
            out.append(&mut body);
            proof {
                assert(out@ =~= sp_encode_block(b@).unwrap());
            }
            Ok(out)
        },
        Block::Unknown(flag, body) => {
            let mut out = vstd::bytes::u32_to_le_bytes(body.len() as u32);
            append_bytes(&mut out, flag.as_slice());
            append_bytes(&mut out, body.as_slice());
            proof {
                assert(out@ =~= sp_encode_block(b@).unwrap());
            }
            Ok(out)
        },
        Block::LayerDef(_) => Err(RMError::EncodeUnsupported { kind: BlockKind::LayerDef }),
        Block::TextDef(_) => Err(RMError::EncodeUnsupported { kind: BlockKind::TextDef }),
        Block::LayerName(_) => Err(RMError::EncodeUnsupported { kind: BlockKind::LayerName }),
        Block::LayerInfo(_) => Err(RMError::EncodeUnsupported { kind: BlockKind::LayerInfo }),
    }
}

/// A frontmatter that can be written back: a single version digit and the
/// fixed-size reserved run.
pub open spec fn spec_frontmatter_wf(fm: SpecFrontmatter) -> bool {
    fm.version <= 9 && fm.unknown.len() == 130
}

/// The wire form of the frontmatter: the header text, the version digit in
/// ASCII, and the reserved bytes.
pub open spec fn sp_encode_frontmatter(fm: SpecFrontmatter) -> Seq<u8>
    recommends
        spec_frontmatter_wf(fm),
{
    spec_header_text() + seq![(fm.version + 48) as u8] + fm.unknown
}

/// Encodes the frontmatter.
pub fn encode_frontmatter(fm: &Frontmatter) -> (r: Vec<u8>)
    requires
        spec_frontmatter_wf(fm@),
    ensures
        r@ == sp_encode_frontmatter(fm@),
{
    let mut out = header_text_bytes();
    out.push(fm.version + 48);
    append_bytes(&mut out, fm.unknown.as_slice());
    proof {
        assert(out@ =~= sp_encode_frontmatter(fm@));
    }
    out
}

/// The concatenated framed wire form of a run of blocks; the first
/// unsupported block is the run's failure.
pub open spec fn sp_encode_blocks(blocks: Seq<SpecBlock>) -> Result<Seq<u8>, RMError>
    decreases blocks.len(),
{
    if blocks.len() == 0 {
        Ok(Seq::empty())
    } else {
        match sp_encode_block(blocks[0]) {
            Err(e) => Err(e),
            Ok(bs) => match sp_encode_blocks(blocks.drop_first()) {
                Err(e) => Err(e),
                Ok(rs) => Ok(bs + rs),
            },
        }
    }
}

/// Appending one block appends its framed bytes to the run's encoding.
pub proof fn lemma_encode_blocks_push(blocks: Seq<SpecBlock>, b: SpecBlock)
    ensures
        sp_encode_blocks(blocks.push(b)) == match (sp_encode_blocks(blocks), sp_encode_block(b)) {
            (Ok(bs), Ok(nb)) => Ok::<Seq<u8>, RMError>(bs + nb),
            (Err(e), _) => Err::<Seq<u8>, RMError>(e),
            (Ok(_), Err(e)) => Err::<Seq<u8>, RMError>(e),
        },
    decreases blocks.len(),
{
    if blocks.len() == 0 {
        reveal_with_fuel(sp_encode_blocks, 2);
        assert(blocks.push(b)[0] == b);
        assert(blocks.push(b).drop_first() =~= Seq::<SpecBlock>::empty());
        match sp_encode_block(b) {
            Ok(nb) => {
                assert(Seq::<u8>::empty() + nb =~= nb);
                assert(nb + Seq::<u8>::empty() =~= nb);
            },
            Err(_) => {},
        }
    } else {
        assert(blocks.push(b).drop_first() =~= blocks.drop_first().push(b));
        lemma_encode_blocks_push(blocks.drop_first(), b);
        match (sp_encode_block(blocks[0]), sp_encode_blocks(blocks.drop_first()), sp_encode_block(
            b,
        )) {
            (Ok(h), Ok(bs), Ok(nb)) => {
                assert(h + (bs + nb) =~= (h + bs) + nb);
            },
            _ => {},
        }
    }
}

/// The wire form of a whole notebook: the frontmatter, then every block.
pub open spec fn sp_encode_notebook(nb: SpecNotebook) -> Result<Seq<u8>, RMError>
    recommends
        spec_frontmatter_wf(nb.frontmatter),
{
    match sp_encode_blocks(nb.blocks) {
        Err(e) => Err(e),
        Ok(bs) => Ok(sp_encode_frontmatter(nb.frontmatter) + bs),
    }
}

/// Encodes a whole notebook back into page-file bytes.
pub fn encode_notebook(nb: &Notebook) -> (r: Result<Vec<u8>, RMError>)
    requires
        spec_frontmatter_wf(nb.frontmatter@),
        forall|i: int| 0 <= i < nb.blocks@.len() ==> spec_block_bounded(#[trigger] nb.blocks@[i]@),
    ensures
        match (r, sp_encode_notebook(nb@)) {
            (Ok(v), Ok(gv)) => v@ == gv,
            (Err(e), Err(ge)) => e == ge,
            _ => false,
        },
{
    let mut out = encode_frontmatter(&nb.frontmatter);
    let ghost fm_bytes = out@;
    let n = nb.blocks.len();
    let mut i: usize = 0;
    while i < n
        invariant
            i <= n == nb.blocks@.len(),
            forall|k: int| 0 <= k < nb.blocks@.len() ==> spec_block_bounded(
                #[trigger] nb.blocks@[k]@,
            ),
            sp_encode_blocks(nb.blocks@.map_values(|b: Block| b@).take(i as int)) matches Ok(bs)
                && out@ == fm_bytes + bs,
            fm_bytes == sp_encode_frontmatter(nb.frontmatter@),
        decreases n - i,
    {
        let mut bb = match encode_block(&nb.blocks[i]) {
            Ok(v) => v,
            Err(e) => {
                proof {
                    let gblocks = nb.blocks@.map_values(|b: Block| b@);
                    lemma_encode_blocks_prefix_err(gblocks, i as int, e);
                }
                return Err(e);
            },
        };
        proof {
            let gblocks = nb.blocks@.map_values(|b: Block| b@);
            lemma_encode_blocks_push(gblocks.take(i as int), gblocks[i as int]);
            assert(gblocks.take(i + 1) =~= gblocks.take(i as int).push(gblocks[i as int]));
        }
        let ghost prev = out@;
        out.append(&mut bb);
        proof {
            let gblocks = nb.blocks@.map_values(|b: Block| b@);
            let bs = sp_encode_blocks(gblocks.take(i as int)).unwrap();
            let nbb = sp_encode_block(gblocks[i as int]).unwrap();
            assert((fm_bytes + bs) + nbb =~= fm_bytes + (bs + nbb));
        }
        i = i + 1;
    }
    proof {
        let gblocks = nb.blocks@.map_values(|b: Block| b@);
        assert(gblocks.take(n as int) =~= gblocks);
    }
    Ok(out)
}

/// If every block before `i` encodes and block `i` fails with `e`, the
/// whole run fails with `e`.
proof fn lemma_encode_blocks_prefix_err(blocks: Seq<SpecBlock>, i: int, e: RMError)
    requires
        0 <= i < blocks.len(),
        sp_encode_blocks(blocks.take(i)) is Ok,
        sp_encode_block(blocks[i]) == Err::<Seq<u8>, RMError>(e),
    ensures
        sp_encode_blocks(blocks) == Err::<Seq<u8>, RMError>(e),
    decreases i,
{
    if i == 0 {
        assert(blocks[0] == blocks[i]);
    } else {
        assert(blocks.take(i)[0] == blocks[0]);
        assert(sp_encode_blocks(blocks.take(i)) is Ok);
        assert(blocks.take(i).drop_first() =~= blocks.drop_first().take(i - 1));
        assert(blocks.drop_first()[i - 1] == blocks[i]);
        lemma_encode_blocks_prefix_err(blocks.drop_first(), i - 1, e);
    }
}

} // verus!
