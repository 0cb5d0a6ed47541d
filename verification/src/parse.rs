//! Decoder for the block stream of a page file.
//!
//! Every record is a run of sentinel-delimited fields; each `parse_*`
//! function consumes one record from an absolute cursor and is specified
//! against a ghost-level mirror (`sp_parse_*`) over the byte sequence, so
//! that success, failure, the decoded value and the consumed length are all
//! pinned exactly.

use vstd::prelude::*;

use crate::types::{
    Block, Frontmatter, IdField, LayerDef, LayerInfo, LayerName, Line, Notebook, Point, RMError,
    SpecBlock, SpecFrontmatter, SpecLayerDef, SpecLayerInfo, SpecLayerName, SpecLine,
    SpecNotebook, SpecTextBackmatter, SpecTextChunk, SpecTextDef, TextBackmatter, TextChunk,
    TextDef, res_matches,
};
use crate::wire::{
    PREAMBLE_LEN, TAG_BACKMATTER, TAG_BRUSH, TAG_CHUNK, TAG_DETAIL, TAG_DONE, TAG_ID_0, TAG_ID_1,
    TAG_ID_2, TAG_ID_3, TAG_LAYER_RUN, TAG_PEN_1, TAG_PEN_2, TAG_POINTS, TAG_POINTS_2, TAG_STRING,
    TAG_SUBBLOCK, TAG_TRAILER, TAG_TRAILING, TAG_WORD, expect_byte, flag_layer_def,
    flag_layer_info, flag_layer_name, flag_line, flag_text_def, header_text_bytes, read_u8,
    read_u32_le, scan_byte, sp_expect, sp_read_u32, sp_read_u8, sp_scan, sp_take,
    spec_header_text, take_bytes, utf8_to_string,
};

verus! {

/// A raw id field padded to its canonical three-byte form.
pub open spec fn pad3(f: Seq<u8>) -> Seq<u8> {
    Seq::new(3, |i: int| if i < f.len() { f[i] } else { 0u8 })
}

/// Pads a 1-3 byte raw id field with trailing zeroes.
pub fn pad_id_field(field: &[u8]) -> (r: IdField)
    requires
        1 <= field@.len() <= 3,
    ensures
        r@ == pad3(field@),
{
    let mut a: [u8; 3] = [0u8; 3];
    a[0] = field[0];
    if field.len() > 1 {
        a[1] = field[1];
    }
    if field.len() > 2 {
        a[2] = field[2];
    }
    proof {
        assert(a@ =~= pad3(field@));
    }
    IdField(a)
}

/// First position in `[start, end)` holding `stop`, capped at `start + 3`
/// (an id field never spans more than three bytes) and at `end`.
pub open spec fn sp_scan3(s: Seq<u8>, start: int, end: int, stop: u8) -> int {
    if start >= end || s[start] == stop {
        start
    } else if start + 1 >= end || s[start + 1] == stop {
        start + 1
    } else if start + 2 >= end || s[start + 2] == stop {
        start + 2
    } else {
        start + 3
    }
}

/// One compact id field: its own sentinel, then 1-3 raw bytes running up to
/// the next field's sentinel (or the end of the region), left unconsumed.
/// An empty field is an inconsistency; a field that would exceed three
/// bytes is reported as the missing delimiter.
pub open spec fn sp_parse_id_field(
    s: Seq<u8>,
    pos: int,
    end: int,
    this_tag: u8,
    next_tag: u8,
) -> Result<(Seq<u8>, int), RMError> {
    match sp_expect(s, pos, end, this_tag) {
        Err(e) => Err(e),
        Ok(start) => {
            let j = sp_scan3(s, start, end, next_tag);
            if j == start {
                Err(RMError::ArithmeticInconsistency { offset: start as usize })
            } else if j == start + 3 && j < end && s[j] != next_tag {
                Err(
                    RMError::SentinelMismatch {
                        offset: j as usize,
                        expected: next_tag,
                        found: s[j],
                    },
                )
            } else {
                Ok((pad3(s.subrange(start, j)), j))
            }
        },
    }
}

/// Parses one compact id field delimited by `this_tag` and `next_tag`.
pub fn parse_id_field(input: &[u8], pos: usize, end: usize, this_tag: u8, next_tag: u8) -> (r:
    Result<(IdField, usize), RMError>)
    requires
        pos <= end <= input@.len(),
    ensures
        res_matches(r, sp_parse_id_field(input@, pos as int, end as int, this_tag, next_tag)),
{
    let start = match expect_byte(input, pos, end, this_tag) {
        Ok(p) => p,
        Err(e) => return Err(e),
    };
    let j: usize = if start < end && input[start] != next_tag {
        if start + 1 < end && input[start + 1] != next_tag {
            if start + 2 < end && input[start + 2] != next_tag {
                start + 3
            } else {
                start + 2
            }
        } else {
            start + 1
        }
    } else {
        start
    };
    if j == start {
        Err(RMError::ArithmeticInconsistency { offset: start })
    } else if j - start == 3 && j < end && input[j] != next_tag {
        Err(RMError::SentinelMismatch { offset: j, expected: next_tag, found: input[j] })
    } else {
        let mut a: [u8; 3] = [0u8; 3];
        a[0] = input[start];
        if j - start > 1 {
            a[1] = input[start + 1];
        }
        if j - start > 2 {
            a[2] = input[start + 2];
        }
        proof {
            assert(a@ =~= pad3(input@.subrange(start as int, j as int)));
        }
        Ok((IdField(a), j))
    }
}

/// One 14-byte point record: two little-endian floats (kept as bit
/// patterns), then the four dynamics bytes with two reserved zero bytes
/// interleaved.
pub open spec fn sp_parse_point(s: Seq<u8>, pos: int, end: int) -> Result<(Point, int), RMError> {
    match sp_read_u32(s, pos, end) {
        Err(e) => Err(e),
        Ok((x, p1)) => match sp_read_u32(s, p1, end) {
            Err(e) => Err(e),
            Ok((y, p2)) => match sp_read_u8(s, p2, end) {
                Err(e) => Err(e),
                Ok((speed, p3)) => match sp_expect(s, p3, end, 0u8) {
                    Err(e) => Err(e),
                    Ok(p4) => match sp_read_u8(s, p4, end) {
                        Err(e) => Err(e),
                        Ok((width, p5)) => match sp_expect(s, p5, end, 0u8) {
                            Err(e) => Err(e),
                            Ok(p6) => match sp_read_u8(s, p6, end) {
                                Err(e) => Err(e),
                                Ok((direction, p7)) => match sp_read_u8(s, p7, end) {
                                    Err(e) => Err(e),
                                    Ok((pressure, p8)) => Ok(
                                        (Point { x, y, speed, width, direction, pressure }, p8),
                                    ),
                                },
                            },
                        },
                    },
                },
            },
        },
    }
}

/// Parses one 14-byte point record.
pub fn parse_point(input: &[u8], pos: usize, end: usize) -> (r: Result<(Point, usize), RMError>)
    requires
        pos <= end <= input@.len(),
    ensures
        res_matches(r, sp_parse_point(input@, pos as int, end as int)),
{
    let (x, p1) = match read_u32_le(input, pos, end) {
        Ok(v) => v,
        Err(e) => return Err(e),
    };
    let (y, p2) = match read_u32_le(input, p1, end) {
        Ok(v) => v,
        Err(e) => return Err(e),
    };
    let (speed, p3) = match read_u8(input, p2, end) {
        Ok(v) => v,
        Err(e) => return Err(e),
    };
    let p4 = match expect_byte(input, p3, end, 0u8) {
        Ok(v) => v,
        Err(e) => return Err(e),
    };
    let (width, p5) = match read_u8(input, p4, end) {
        Ok(v) => v,
        Err(e) => return Err(e),
    };
    let p6 = match expect_byte(input, p5, end, 0u8) {
        Ok(v) => v,
        Err(e) => return Err(e),
    };
    let (direction, p7) = match read_u8(input, p6, end) {
        Ok(v) => v,
        Err(e) => return Err(e),
    };
    let (pressure, p8) = match read_u8(input, p7, end) {
        Ok(v) => v,
        Err(e) => return Err(e),
    };
    Ok((Point { x, y, speed, width, direction, pressure }, p8))
}

/// Four required zero bytes, one after another.
pub open spec fn sp_expect_zero4(s: Seq<u8>, pos: int, end: int) -> Result<int, RMError> {
    match sp_expect(s, pos, end, 0u8) {
        Err(e) => Err(e),
        Ok(p1) => match sp_expect(s, p1, end, 0u8) {
            Err(e) => Err(e),
            Ok(p2) => match sp_expect(s, p2, end, 0u8) {
                Err(e) => Err(e),
                Ok(p3) => sp_expect(s, p3, end, 0u8),
            },
        },
    }
}

/// Consumes four required zero bytes.
fn expect_zero4(input: &[u8], pos: usize, end: usize) -> (r: Result<usize, RMError>)
    requires
        pos <= end <= input@.len(),
    ensures
        match (r, sp_expect_zero4(input@, pos as int, end as int)) {
            (Ok(n), Ok(gn)) => n as int == gn,
            (Err(e), Err(ge)) => e == ge,
            _ => false,
        },
{
    let p1 = match expect_byte(input, pos, end, 0u8) {
        Ok(v) => v,
        Err(e) => return Err(e),
    };
    let p2 = match expect_byte(input, p1, end, 0u8) {
        Ok(v) => v,
        Err(e) => return Err(e),
    };
    let p3 = match expect_byte(input, p2, end, 0u8) {
        Ok(v) => v,
        Err(e) => return Err(e),
    };
    expect_byte(input, p3, end, 0u8)
}

/// `n` consecutive 14-byte point records.
pub open spec fn sp_parse_points(s: Seq<u8>, pos: int, end: int, n: u32) -> Result<
    (Seq<Point>, int),
    RMError,
>
    decreases n,
{
    if n == 0 {
        Ok((Seq::empty(), pos))
    } else {
        match sp_parse_point(s, pos, end) {
            Err(e) => Err(e),
            Ok((p, p2)) => match sp_parse_points(s, p2, end, (n - 1) as u32) {
                Err(e) => Err(e),
                Ok((rest, p3)) => Ok((seq![p] + rest, p3)),
            },
        }
    }
}

/// Parses `n` consecutive point records.
pub fn parse_points(input: &[u8], pos: usize, end: usize, n: u32) -> (r: Result<
    (Vec<Point>, usize),
    RMError,
>)
    requires
        pos <= end <= input@.len(),
    ensures
        res_matches(r, sp_parse_points(input@, pos as int, end as int, n)),
        r matches Ok((pts, q)) ==> pos <= q <= end,
{
    let ghost total = sp_parse_points(input@, pos as int, end as int, n);
    let mut points: Vec<Point> = Vec::new();
    let mut cur: usize = pos;
    let mut i: u32 = 0;
    while i < n
        invariant
            pos <= cur <= end <= input@.len(),
            i <= n,
            total == sp_parse_points(input@, pos as int, end as int, n),
            match sp_parse_points(input@, cur as int, end as int, (n - i) as u32) {
                Ok((rest, e)) => total == Ok::<(Seq<Point>, int), RMError>((points@ + rest, e)),
                Err(er) => total == Err::<(Seq<Point>, int), RMError>(er),
            },
        decreases n - i,
    {
        match parse_point(input, cur, end) {
            Err(e) => {
                return Err(e);
            },
            Ok((p, p2)) => {
                let ghost prev = points@;
                points.push(p);
                proof {
                    match sp_parse_points(input@, p2 as int, end as int, (n - i - 1) as u32) {
                        Ok((rest2, e2)) => {
                            assert(prev + (seq![p] + rest2) =~= points@ + rest2);
                        },
                        Err(_) => {},
                    }
                }
                cur = p2;
                i = i + 1;
            },
        }
    }
    proof {
        assert(points@ + Seq::<Point>::empty() =~= points@);
    }
    Ok((points, cur))
}

/// The inside of a stroke's length-prefixed detail region: pen type, color,
/// brush-size bits, the count-prefixed point array (count = declared byte
/// length / 14), and the three-byte trailer.
pub open spec fn sp_parse_line_detail(s: Seq<u8>, pos: int, end: int) -> Result<
    ((u32, u32, u32, Seq<Point>), int),
    RMError,
> {
    match sp_expect(s, pos, end, TAG_PEN_1) {
        Err(e) => Err(e),
        Ok(q1) => match sp_expect(s, q1, end, TAG_PEN_2) {
            Err(e) => Err(e),
            Ok(q2) => match sp_read_u32(s, q2, end) {
                Err(e) => Err(e),
                Ok((pen, q3)) => match sp_expect(s, q3, end, TAG_WORD) {
                    Err(e) => Err(e),
                    Ok(q4) => match sp_read_u32(s, q4, end) {
                        Err(e) => Err(e),
                        Ok((color, q5)) => match sp_expect(s, q5, end, TAG_BRUSH) {
                            Err(e) => Err(e),
                            Ok(q6) => match sp_expect_zero4(s, q6, end) {
                                Err(e) => Err(e),
                                Ok(q7) => match sp_read_u32(s, q7, end) {
                                    Err(e) => Err(e),
                                    Ok((brush, q8)) => match sp_expect(s, q8, end, TAG_POINTS) {
                                        Err(e) => Err(e),
                                        Ok(q9) => match sp_expect_zero4(s, q9, end) {
                                            Err(e) => Err(e),
                                            Ok(q10) => match sp_expect(s, q10, end, TAG_POINTS_2) {
                                                Err(e) => Err(e),
                                                Ok(q11) => match sp_read_u32(s, q11, end) {
                                                    Err(e) => Err(e),
                                                    Ok((plen, q12)) => match sp_parse_points(
                                                        s,
                                                        q12,
                                                        end,
                                                        plen / 14,
                                                    ) {
                                                        Err(e) => Err(e),
                                                        Ok((points, q13)) => match sp_expect(
                                                            s,
                                                            q13,
                                                            end,
                                                            TAG_TRAILER,
                                                        ) {
                                                            Err(e) => Err(e),
                                                            Ok(q14) => match sp_expect(
                                                                s,
                                                                q14,
                                                                end,
                                                                0u8,
                                                            ) {
                                                                Err(e) => Err(e),
                                                                Ok(q15) => match sp_expect(
                                                                    s,
                                                                    q15,
                                                                    end,
                                                                    1u8,
                                                                ) {
                                                                    Err(e) => Err(e),
                                                                    Ok(q16) => Ok(
                                                                        (
                                                                            (
                                                                                pen,
                                                                                color,
                                                                                brush,
                                                                                points,
                                                                            ),
                                                                            q16,
                                                                        ),
                                                                    ),
                                                                },
                                                            },
                                                        },
                                                    },
                                                },
                                            },
                                        },
                                    },
                                },
                            },
                        },
                    },
                },
            },
        },
    }
}

/// Parses the inside of a stroke's detail region.
#[verifier::rlimit(60)]
fn parse_line_detail(input: &[u8], pos: usize, end: usize) -> (r: Result<
    ((u32, u32, u32, Vec<Point>), usize),
    RMError,
>)
    requires
        pos <= end <= input@.len(),
    ensures
        match (r, sp_parse_line_detail(input@, pos as int, end as int)) {
            (Ok(((pen, color, brush, pts), n)), Ok(((gp, gc, gb, gpts), gn))) => pen == gp && color
                == gc && brush == gb && pts@ == gpts && n as int == gn,
            (Err(e), Err(ge)) => e == ge,
            _ => false,
        },
{
    let q1 = match expect_byte(input, pos, end, TAG_PEN_1) {
        Ok(v) => v,
        Err(e) => return Err(e),
    };
    let q2 = match expect_byte(input, q1, end, TAG_PEN_2) {
        Ok(v) => v,
        Err(e) => return Err(e),
    };
    let (pen, q3) = match read_u32_le(input, q2, end) {
        Ok(v) => v,
        Err(e) => return Err(e),
    };
    let q4 = match expect_byte(input, q3, end, TAG_WORD) {
        Ok(v) => v,
        Err(e) => return Err(e),
    };
    let (color, q5) = match read_u32_le(input, q4, end) {
        Ok(v) => v,
        Err(e) => return Err(e),
    };
    let q6 = match expect_byte(input, q5, end, TAG_BRUSH) {
        Ok(v) => v,
        Err(e) => return Err(e),
    };
    let q7 = match expect_zero4(input, q6, end) {
        Ok(v) => v,
        Err(e) => return Err(e),
    };
    let (brush, q8) = match read_u32_le(input, q7, end) {
        Ok(v) => v,
        Err(e) => return Err(e),
    };
    let q9 = match expect_byte(input, q8, end, TAG_POINTS) {
        Ok(v) => v,
        Err(e) => return Err(e),
    };
    let q10 = match expect_zero4(input, q9, end) {
        Ok(v) => v,
        Err(e) => return Err(e),
    };
    let q11 = match expect_byte(input, q10, end, TAG_POINTS_2) {
        Ok(v) => v,
        Err(e) => return Err(e),
    };
    let (plen, q12) = match read_u32_le(input, q11, end) {
        Ok(v) => v,
        Err(e) => return Err(e),
    };
    let (points, q13) = match parse_points(input, q12, end, plen / 14) {
        Ok(v) => v,
        Err(e) => return Err(e),
    };
    let q14 = match expect_byte(input, q13, end, TAG_TRAILER) {
        Ok(v) => v,
        Err(e) => return Err(e),
    };
    let q15 = match expect_byte(input, q14, end, 0u8) {
        Ok(v) => v,
        Err(e) => return Err(e),
    };
    let q16 = match expect_byte(input, q15, end, 1u8) {
        Ok(v) => v,
        Err(e) => return Err(e),
    };
    Ok(((pen, color, brush, points), q16))
}

/// One stroke record: four compact ids, the done word, and — when that word
/// is zero — a length-prefixed detail region parsed by
/// [`sp_parse_line_detail`]; the record then ends at the region's declared
/// end.  A nonzero done word ends the record at once with no points.
pub open spec fn sp_parse_line(s: Seq<u8>, pos: int, end: int) -> Result<(SpecLine, int), RMError> {
    match sp_parse_id_field(s, pos, end, TAG_ID_0, TAG_ID_1) {
        Err(e) => Err(e),
        Ok((layer_id, p1)) => match sp_parse_id_field(s, p1, end, TAG_ID_1, TAG_ID_2) {
            Err(e) => Err(e),
            Ok((line_id, p2)) => match sp_parse_id_field(s, p2, end, TAG_ID_2, TAG_ID_3) {
                Err(e) => Err(e),
                Ok((last_line_id, p3)) => match sp_parse_id_field(s, p3, end, TAG_ID_3, TAG_DONE) {
                    Err(e) => Err(e),
                    Ok((id_field_0, p4)) => match sp_expect(s, p4, end, TAG_DONE) {
                        Err(e) => Err(e),
                        Ok(p5) => match sp_read_u32(s, p5, end) {
                            Err(e) => Err(e),
                            Ok((done, p6)) => if done != 0 {
                                Ok(
                                    (
                                        SpecLine {
                                            layer_id,
                                            line_id,
                                            last_line_id,
                                            id_field_0,
                                            pen_type: None,
                                            color: None,
                                            brush_size: None,
                                            points: Seq::empty(),
                                        },
                                        p6,
                                    ),
                                )
                            } else {
                                match sp_expect(s, p6, end, TAG_DETAIL) {
                                    Err(e) => Err(e),
                                    Ok(p7) => match sp_read_u32(s, p7, end) {
                                        Err(e) => Err(e),
                                        Ok((dlen, p8)) => if end - p8 < dlen {
                                            Err(
                                                RMError::TruncatedInput {
                                                    offset: p8 as usize,
                                                    needed: dlen as usize,
                                                },
                                            )
                                        } else {
                                            match sp_parse_line_detail(s, p8, p8 + dlen) {
                                                Err(e) => Err(e),
                                                Ok(((pen, color, brush, points), _q)) => Ok(
                                                    (
                                                        SpecLine {
                                                            layer_id,
                                                            line_id,
                                                            last_line_id,
                                                            id_field_0,
                                                            pen_type: Some(pen),
                                                            color: Some(color),
                                                            brush_size: Some(brush),
                                                            points,
                                                        },
                                                        p8 + dlen,
                                                    ),
                                                ),
                                            }
                                        },
                                    },
                                }
                            },
                        },
                    },
                },
            },
        },
    }
}

/// Parses one stroke record.
pub fn parse_line(input: &[u8], pos: usize, end: usize) -> (r: Result<(Line, usize), RMError>)
    requires
        pos <= end <= input@.len(),
    ensures
        res_matches(r, sp_parse_line(input@, pos as int, end as int)),
{
    let (layer_id, p1) = match parse_id_field(input, pos, end, TAG_ID_0, TAG_ID_1) {
        Ok(v) => v,
        Err(e) => return Err(e),
    };
    let (line_id, p2) = match parse_id_field(input, p1, end, TAG_ID_1, TAG_ID_2) {
        Ok(v) => v,
        Err(e) => return Err(e),
    };
    let (last_line_id, p3) = match parse_id_field(input, p2, end, TAG_ID_2, TAG_ID_3) {
        Ok(v) => v,
        Err(e) => return Err(e),
    };
    let (id_field_0, p4) = match parse_id_field(input, p3, end, TAG_ID_3, TAG_DONE) {
        Ok(v) => v,
        Err(e) => return Err(e),
    };
    let p5 = match expect_byte(input, p4, end, TAG_DONE) {
        Ok(v) => v,
        Err(e) => return Err(e),
    };
    let (done, p6) = match read_u32_le(input, p5, end) {
        Ok(v) => v,
        Err(e) => return Err(e),
    };
    if done != 0 {
        return Ok(
            (
                Line {
                    layer_id,
                    line_id,
                    last_line_id,
                    id_field_0,
                    pen_type: None,
                    color: None,
                    brush_size: None,
                    points: Vec::new(),
                },
                p6,
            ),
        );
    }
    let p7 = match expect_byte(input, p6, end, TAG_DETAIL) {
        Ok(v) => v,
        Err(e) => return Err(e),
    };
    let (dlen, p8) = match read_u32_le(input, p7, end) {
        Ok(v) => v,
        Err(e) => return Err(e),
    };
    let dlen_us = dlen as usize;
    if end - p8 < dlen_us {
        return Err(RMError::TruncatedInput { offset: p8, needed: dlen_us });
    }
    let dend = p8 + dlen_us;
    let ((pen, color, brush, points), _q) = match parse_line_detail(input, p8, dend) {
        Ok(v) => v,
        Err(e) => return Err(e),
    };
    Ok(
        (
            Line {
                layer_id,
                line_id,
                last_line_id,
                id_field_0,
                pen_type: Some(pen),
                color: Some(color),
                brush_size: Some(brush),
                points,
            },
            dend,
        ),
    )
}

/// One layer definition record: an id, a free run of bytes up to the
/// trailing-region sentinel, and a length-prefixed trailing run whose own
/// leading id sentinel is stripped.
pub open spec fn sp_parse_layer_def(s: Seq<u8>, pos: int, end: int) -> Result<
    (SpecLayerDef, int),
    RMError,
> {
    match sp_parse_id_field(s, pos, end, TAG_ID_0, TAG_ID_1) {
        Err(e) => Err(e),
        Ok((layer_id, p1)) => match sp_expect(s, p1, end, TAG_ID_1) {
            Err(e) => Err(e),
            Ok(p2) => {
                let j = sp_scan(s, p2, end, TAG_LAYER_RUN);
                match sp_expect(s, j, end, TAG_LAYER_RUN) {
                    Err(e) => Err(e),
                    Ok(p4) => match sp_read_u32(s, p4, end) {
                        Err(e) => Err(e),
                        Ok((rlen, p5)) => if end - p5 < rlen {
                            Err(
                                RMError::TruncatedInput {
                                    offset: p5 as usize,
                                    needed: rlen as usize,
                                },
                            )
                        } else {
                            match sp_expect(s, p5, p5 + rlen, TAG_ID_0) {
                                Err(e) => Err(e),
                                Ok(q1) => Ok(
                                    (
                                        SpecLayerDef {
                                            layer_id,
                                            unknown_1: s.subrange(p2, j),
                                            unknown_2: s.subrange(q1, p5 + rlen),
                                        },
                                        p5 + rlen,
                                    ),
                                ),
                            }
                        },
                    },
                }
            },
        },
    }
}

/// Parses one layer definition record.
pub fn parse_layer_def(input: &[u8], pos: usize, end: usize) -> (r: Result<
    (LayerDef, usize),
    RMError,
>)
    requires
        pos <= end <= input@.len(),
    ensures
        res_matches(r, sp_parse_layer_def(input@, pos as int, end as int)),
{
    let (layer_id, p1) = match parse_id_field(input, pos, end, TAG_ID_0, TAG_ID_1) {
        Ok(v) => v,
        Err(e) => return Err(e),
    };
    let p2 = match expect_byte(input, p1, end, TAG_ID_1) {
        Ok(v) => v,
        Err(e) => return Err(e),
    };
    let j = scan_byte(input, p2, end, TAG_LAYER_RUN);
    let (unknown_1, _j2) = match take_bytes(input, p2, end, j - p2) {
        Ok(v) => v,
        Err(e) => return Err(e),
    };
    let p4 = match expect_byte(input, j, end, TAG_LAYER_RUN) {
        Ok(v) => v,
        Err(e) => return Err(e),
    };
    let (rlen, p5) = match read_u32_le(input, p4, end) {
        Ok(v) => v,
        Err(e) => return Err(e),
    };
    let rlen_us = rlen as usize;
    if end - p5 < rlen_us {
        return Err(RMError::TruncatedInput { offset: p5, needed: rlen_us });
    }
    let rend = p5 + rlen_us;
    let q1 = match expect_byte(input, p5, rend, TAG_ID_0) {
        Ok(v) => v,
        Err(e) => return Err(e),
    };
    let (unknown_2, _q2) = match take_bytes(input, q1, rend, rend - q1) {
        Ok(v) => v,
        Err(e) => return Err(e),
    };
    Ok((LayerDef { layer_id, unknown_1, unknown_2 }, rend))
}

/// One layer name record: an id, a length-prefixed sub-block holding a
/// second id and a byte-counted UTF-8 name, and a length-prefixed opaque
/// trailing run.  Invalid UTF-8 is a typed decode failure.
pub open spec fn sp_parse_layer_name(s: Seq<u8>, pos: int, end: int) -> Result<
    (SpecLayerName, int),
    RMError,
> {
    match sp_parse_id_field(s, pos, end, TAG_ID_0, TAG_SUBBLOCK) {
        Err(e) => Err(e),
        Ok((layer_id, p1)) => match sp_expect(s, p1, end, TAG_SUBBLOCK) {
            Err(e) => Err(e),
            Ok(p2) => match sp_read_u32(s, p2, end) {
                Err(e) => Err(e),
                Ok((len1, p3)) => if end - p3 < len1 {
                    Err(RMError::TruncatedInput { offset: p3 as usize, needed: len1 as usize })
                } else {
                    let send = p3 + len1;
                    match sp_parse_id_field(s, p3, send, TAG_ID_0, TAG_SUBBLOCK) {
                        Err(e) => Err(e),
                        Ok((id_field_0, q1)) => match sp_expect(s, q1, send, TAG_SUBBLOCK) {
                            Err(e) => Err(e),
                            Ok(q2) => match sp_read_u32(s, q2, send) {
                                Err(e) => Err(e),
                                Ok((len2, q3)) => if send - q3 < len2 {
                                    Err(
                                        RMError::TruncatedInput {
                                            offset: q3 as usize,
                                            needed: len2 as usize,
                                        },
                                    )
                                } else {
                                    let s2end = q3 + len2;
                                    match sp_read_u8(s, q3, s2end) {
                                        Err(e) => Err(e),
                                        Ok((len_name, r1)) => match sp_expect(
                                            s,
                                            r1,
                                            s2end,
                                            TAG_STRING,
                                        ) {
                                            Err(e) => Err(e),
                                            Ok(r2) => match sp_take(s, r2, s2end, len_name as int) {
                                                Err(e) => Err(e),
                                                Ok((name_bytes, _r3)) => match sp_expect(
                                                    s,
                                                    send,
                                                    end,
                                                    TAG_TRAILING,
                                                ) {
                                                    Err(e) => Err(e),
                                                    Ok(t1) => match sp_read_u32(s, t1, end) {
                                                        Err(e) => Err(e),
                                                        Ok((len3, t2)) => if end - t2 < len3 {
                                                            Err(
                                                                RMError::TruncatedInput {
                                                                    offset: t2 as usize,
                                                                    needed: len3 as usize,
                                                                },
                                                            )
                                                        } else if !vstd::utf8::valid_utf8(
                                                            name_bytes,
                                                        ) {
                                                            Err(
                                                                RMError::InvalidUtf8 {
                                                                    offset: r2 as usize,
                                                                },
                                                            )
                                                        } else {
                                                            Ok(
                                                                (
                                                                    SpecLayerName {
                                                                        layer_id,
                                                                        id_field_0,
                                                                        name: vstd::utf8::decode_utf8(
                                                                            name_bytes,
                                                                        ),
                                                                        unknown_rest: s.subrange(
                                                                            t2,
                                                                            t2 + len3,
                                                                        ),
                                                                    },
                                                                    t2 + len3,
                                                                ),
                                                            )
                                                        },
                                                    },
                                                },
                                            },
                                        },
                                    }
                                },
                            },
                        },
                    }
                },
            },
        },
    }
}

/// Parses one layer name record.
#[verifier::rlimit(60)]
pub fn parse_layer_name(input: &[u8], pos: usize, end: usize) -> (r: Result<
    (LayerName, usize),
    RMError,
>)
    requires
        pos <= end <= input@.len(),
    ensures
        res_matches(r, sp_parse_layer_name(input@, pos as int, end as int)),
{
    let (layer_id, p1) = match parse_id_field(input, pos, end, TAG_ID_0, TAG_SUBBLOCK) {
        Ok(v) => v,
        Err(e) => return Err(e),
    };
    let p2 = match expect_byte(input, p1, end, TAG_SUBBLOCK) {
        Ok(v) => v,
        Err(e) => return Err(e),
    };
    let (len1, p3) = match read_u32_le(input, p2, end) {
        Ok(v) => v,
        Err(e) => return Err(e),
    };
    let len1_us = len1 as usize;
    if end - p3 < len1_us {
        return Err(RMError::TruncatedInput { offset: p3, needed: len1_us });
    }
    let send = p3 + len1_us;
    let (id_field_0, q1) = match parse_id_field(input, p3, send, TAG_ID_0, TAG_SUBBLOCK) {
        Ok(v) => v,
        Err(e) => return Err(e),
    };
    let q2 = match expect_byte(input, q1, send, TAG_SUBBLOCK) {
        Ok(v) => v,
        Err(e) => return Err(e),
    };
    let (len2, q3) = match read_u32_le(input, q2, send) {
        Ok(v) => v,
        Err(e) => return Err(e),
    };
    let len2_us = len2 as usize;
    if send - q3 < len2_us {
        return Err(RMError::TruncatedInput { offset: q3, needed: len2_us });
    }
    let s2end = q3 + len2_us;
    let (len_name, r1) = match read_u8(input, q3, s2end) {
        Ok(v) => v,
        Err(e) => return Err(e),
    };
    let r2 = match expect_byte(input, r1, s2end, TAG_STRING) {
        Ok(v) => v,
        Err(e) => return Err(e),
    };
    let (name_bytes, _r3) = match take_bytes(input, r2, s2end, len_name as usize) {
        Ok(v) => v,
        Err(e) => return Err(e),
    };
    let t1 = match expect_byte(input, send, end, TAG_TRAILING) {
        Ok(v) => v,
        Err(e) => return Err(e),
    };
    let (len3, t2) = match read_u32_le(input, t1, end) {
        Ok(v) => v,
        Err(e) => return Err(e),
    };
    let len3_us = len3 as usize;
    if end - t2 < len3_us {
        return Err(RMError::TruncatedInput { offset: t2, needed: len3_us });
    }
    let (unknown_rest, _t3) = match take_bytes(input, t2, end, len3_us) {
        Ok(v) => v,
        Err(e) => return Err(e),
    };
    let name = match utf8_to_string(name_bytes) {
        Some(n) => n,
        None => return Err(RMError::InvalidUtf8 { offset: r2 }),
    };
    Ok((LayerName { layer_id, id_field_0, name, unknown_rest }, t2 + len3_us))
}

/// One layer info record: four compact ids and a status word; when the
/// status is zero, a trailing layer id recovered from a declared byte
/// count, of which the first two bytes are kept and any excess discarded.
pub open spec fn sp_parse_layer_info(s: Seq<u8>, pos: int, end: int) -> Result<
    (SpecLayerInfo, int),
    RMError,
> {
    match sp_parse_id_field(s, pos, end, TAG_ID_0, TAG_ID_1) {
        Err(e) => Err(e),
        Ok((id_field_0, p1)) => match sp_parse_id_field(s, p1, end, TAG_ID_1, TAG_ID_2) {
            Err(e) => Err(e),
            Ok((id_field_1, p2)) => match sp_parse_id_field(s, p2, end, TAG_ID_2, TAG_ID_3) {
                Err(e) => Err(e),
                Ok((id_field_2, p3)) => match sp_parse_id_field(s, p3, end, TAG_ID_3, TAG_DONE) {
                    Err(e) => Err(e),
                    Ok((id_field_3, p4)) => match sp_expect(s, p4, end, TAG_DONE) {
                        Err(e) => Err(e),
                        Ok(p5) => match sp_read_u32(s, p5, end) {
                            Err(e) => Err(e),
                            Ok((status, p6)) => if status != 0 {
                                Ok(
                                    (
                                        SpecLayerInfo {
                                            id_field_0,
                                            id_field_1,
                                            id_field_2,
                                            id_field_3,
                                            layer_id: None,
                                        },
                                        p6,
                                    ),
                                )
                            } else {
                                match sp_expect(s, p6, end, TAG_DETAIL) {
                                    Err(e) => Err(e),
                                    Ok(p7) => match sp_read_u32(s, p7, end) {
                                        Err(e) => Err(e),
                                        Ok((count, p8)) => if count < 2 {
                                            Err(
                                                RMError::ArithmeticInconsistency {
                                                    offset: p7 as usize,
                                                },
                                            )
                                        } else {
                                            match sp_expect(s, p8, end, 2u8) {
                                                Err(e) => Err(e),
                                                Ok(t1) => match sp_expect(s, t1, end, TAG_ID_1) {
                                                    Err(e) => Err(e),
                                                    Ok(t2) => match sp_take(
                                                        s,
                                                        t2,
                                                        end,
                                                        count - 2,
                                                    ) {
                                                        Err(e) => Err(e),
                                                        Ok((idbytes, t3)) => if idbytes.len()
                                                            == 0 {
                                                            Err(
                                                                RMError::ArithmeticInconsistency {
                                                                    offset: t2 as usize,
                                                                },
                                                            )
                                                        } else {
                                                            Ok(
                                                                (
                                                                    SpecLayerInfo {
                                                                        id_field_0,
                                                                        id_field_1,
                                                                        id_field_2,
                                                                        id_field_3,
                                                                        layer_id: Some(
                                                                            pad3(
                                                                                idbytes.take(
                                                                                    if idbytes.len()
                                                                                        < 2 {
                                                                                        idbytes.len() as int
                                                                                    } else {
                                                                                        2
                                                                                    },
                                                                                ),
                                                                            ),
                                                                        ),
                                                                    },
                                                                    t3,
                                                                ),
                                                            )
                                                        },
                                                    },
                                                },
                                            }
                                        },
                                    },
                                }
                            },
                        },
                    },
                },
            },
        },
    }
}

/// Parses one layer info record.
#[verifier::rlimit(60)]
pub fn parse_layer_info(input: &[u8], pos: usize, end: usize) -> (r: Result<
    (LayerInfo, usize),
    RMError,
>)
    requires
        pos <= end <= input@.len(),
    ensures
        res_matches(r, sp_parse_layer_info(input@, pos as int, end as int)),
{
    let (id_field_0, p1) = match parse_id_field(input, pos, end, TAG_ID_0, TAG_ID_1) {
        Ok(v) => v,
        Err(e) => return Err(e),
    };
    let (id_field_1, p2) = match parse_id_field(input, p1, end, TAG_ID_1, TAG_ID_2) {
        Ok(v) => v,
        Err(e) => return Err(e),
    };
    let (id_field_2, p3) = match parse_id_field(input, p2, end, TAG_ID_2, TAG_ID_3) {
        Ok(v) => v,
        Err(e) => return Err(e),
    };
    let (id_field_3, p4) = match parse_id_field(input, p3, end, TAG_ID_3, TAG_DONE) {
        Ok(v) => v,
        Err(e) => return Err(e),
    };
    let p5 = match expect_byte(input, p4, end, TAG_DONE) {
        Ok(v) => v,
        Err(e) => return Err(e),
    };
    let (status, p6) = match read_u32_le(input, p5, end) {
        Ok(v) => v,
        Err(e) => return Err(e),
    };
    if status != 0 {
        return Ok(
            (LayerInfo { id_field_0, id_field_1, id_field_2, id_field_3, layer_id: None }, p6),
        );
    }
    let p7 = match expect_byte(input, p6, end, TAG_DETAIL) {
        Ok(v) => v,
        Err(e) => return Err(e),
    };
    let (count, p8) = match read_u32_le(input, p7, end) {
        Ok(v) => v,
        Err(e) => return Err(e),
    };
    if count < 2 {
        return Err(RMError::ArithmeticInconsistency { offset: p7 });
    }
    let t1 = match expect_byte(input, p8, end, 2u8) {
        Ok(v) => v,
        Err(e) => return Err(e),
    };
    let t2 = match expect_byte(input, t1, end, TAG_ID_1) {
        Ok(v) => v,
        Err(e) => return Err(e),
    };
    let n = (count - 2) as usize;
    let (idbytes, t3) = match take_bytes(input, t2, end, n) {
        Ok(v) => v,
        Err(e) => return Err(e),
    };
    if idbytes.len() == 0 {
        return Err(RMError::ArithmeticInconsistency { offset: t2 });
    }
    let keep: usize = if idbytes.len() < 2 {
        idbytes.len()
    } else {
        2
    };
    let layer_id = pad_id_field(&idbytes.as_slice()[0..keep]);
    proof {
        assert(idbytes@.subrange(0, keep as int) =~= idbytes@.take(
            if idbytes@.len() < 2 {
                idbytes@.len() as int
            } else {
                2
            },
        ));
    }
    Ok(
        (
            LayerInfo { id_field_0, id_field_1, id_field_2, id_field_3, layer_id: Some(layer_id) },
            t3,
        ),
    )
}

/// One text chunk: a length-prefixed body holding three compact ids and a
/// done word; when that word is zero, a byte-counted string follows, plus a
/// trailing word whose presence is inferred from the byte-count check
/// `declared chunk length - string length - 2 == 5`.
pub open spec fn sp_parse_text_chunk(s: Seq<u8>, pos: int, end: int) -> Result<
    (SpecTextChunk, int),
    RMError,
> {
    match sp_expect(s, pos, end, TAG_CHUNK) {
        Err(e) => Err(e),
        Ok(p1) => match sp_read_u32(s, p1, end) {
            Err(e) => Err(e),
            Ok((len, p2)) => if end - p2 < len {
                Err(RMError::TruncatedInput { offset: p2 as usize, needed: len as usize })
            } else {
                let cend = p2 + len;
                match sp_parse_id_field(s, p2, cend, TAG_ID_1, TAG_ID_2) {
                    Err(e) => Err(e),
                    Ok((chunk_id, q1)) => match sp_parse_id_field(s, q1, cend, TAG_ID_2, TAG_ID_3) {
                        Err(e) => Err(e),
                        Ok((other_chunk_id_0, q2)) => match sp_parse_id_field(
                            s,
                            q2,
                            cend,
                            TAG_ID_3,
                            TAG_DONE,
                        ) {
                            Err(e) => Err(e),
                            Ok((other_chunk_id_1, q3)) => match sp_expect(s, q3, cend, TAG_DONE) {
                                Err(e) => Err(e),
                                Ok(q4) => match sp_read_u32(s, q4, cend) {
                                    Err(e) => Err(e),
                                    Ok((done_flag, q5)) => if done_flag != 0 {
                                        Ok(
                                            (
                                                SpecTextChunk {
                                                    chunk_id,
                                                    other_chunk_id_0,
                                                    other_chunk_id_1,
                                                    done_flag,
                                                    text: Seq::empty(),
                                                    magic_dollar: None,
                                                },
                                                cend,
                                            ),
                                        )
                                    } else {
                                        match sp_expect(s, q5, cend, TAG_DETAIL) {
                                            Err(e) => Err(e),
                                            Ok(q6) => match sp_read_u32(s, q6, cend) {
                                                Err(e) => Err(e),
                                                Ok((len_chunk, q7)) => match sp_read_u8(
                                                    s,
                                                    q7,
                                                    cend,
                                                ) {
                                                    Err(e) => Err(e),
                                                    Ok((len_string, r1)) => match sp_expect(
                                                        s,
                                                        r1,
                                                        cend,
                                                        TAG_STRING,
                                                    ) {
                                                        Err(e) => Err(e),
                                                        Ok(r2) => match sp_take(
                                                            s,
                                                            r2,
                                                            cend,
                                                            len_string as int,
                                                        ) {
                                                            Err(e) => Err(e),
                                                            Ok((text_bytes, r3)) => if len_chunk
                                                                < len_string + 2 {
                                                                Err(
                                                                    RMError::ArithmeticInconsistency {
                                                                        offset: q6 as usize,
                                                                    },
                                                                )
                                                            } else {
                                                                sp_text_chunk_tail(
                                                                    s,
                                                                    cend,
                                                                    chunk_id,
                                                                    other_chunk_id_0,
                                                                    other_chunk_id_1,
                                                                    len_chunk,
                                                                    len_string,
                                                                    text_bytes,
                                                                    r2,
                                                                    r3,
                                                                )
                                                            },
                                                        },
                                                    },
                                                },
                                            },
                                        }
                                    },
                                },
                            },
                        },
                    },
                }
            },
        },
    }
}

/// The tail of a zero-done text chunk: the optional trailing word selected
/// by the byte-count check, then the UTF-8 decoding of the string bytes.
pub open spec fn sp_text_chunk_tail(
    s: Seq<u8>,
    cend: int,
    chunk_id: Seq<u8>,
    other_chunk_id_0: Seq<u8>,
    other_chunk_id_1: Seq<u8>,
    len_chunk: u32,
    len_string: u8,
    text_bytes: Seq<u8>,
    text_off: int,
    pos: int,
) -> Result<(SpecTextChunk, int), RMError> {
    let magic = if len_chunk - len_string as u32 - 2 == 5 {
        match sp_expect(s, pos, cend, TAG_WORD) {
            Err(e) => Err(e),
            Ok(m1) => match sp_read_u32(s, m1, cend) {
                Err(e) => Err(e),
                Ok((w, _m2)) => Ok(Some(w)),
            },
        }
    } else {
        Ok(None)
    };
    match magic {
        Err(e) => Err(e),
        Ok(magic_dollar) => if !vstd::utf8::valid_utf8(text_bytes) {
            Err(RMError::InvalidUtf8 { offset: text_off as usize })
        } else {
            Ok(
                (
                    SpecTextChunk {
                        chunk_id,
                        other_chunk_id_0,
                        other_chunk_id_1,
                        done_flag: 0,
                        text: vstd::utf8::decode_utf8(text_bytes),
                        magic_dollar,
                    },
                    cend,
                ),
            )
        },
    }
}

/// Parses one text chunk.
#[verifier::rlimit(60)]
pub fn parse_text_chunk(input: &[u8], pos: usize, end: usize) -> (r: Result<
    (TextChunk, usize),
    RMError,
>)
    requires
        pos <= end <= input@.len(),
    ensures
        res_matches(r, sp_parse_text_chunk(input@, pos as int, end as int)),
        r matches Ok((v, q)) ==> pos < q <= end,
{
    let p1 = match expect_byte(input, pos, end, TAG_CHUNK) {
        Ok(v) => v,
        Err(e) => return Err(e),
    };
    let (len, p2) = match read_u32_le(input, p1, end) {
        Ok(v) => v,
        Err(e) => return Err(e),
    };
    let len_us = len as usize;
    if end - p2 < len_us {
        return Err(RMError::TruncatedInput { offset: p2, needed: len_us });
    }
    let cend = p2 + len_us;
    let (chunk_id, q1) = match parse_id_field(input, p2, cend, TAG_ID_1, TAG_ID_2) {
        Ok(v) => v,
        Err(e) => return Err(e),
    };
    let (other_chunk_id_0, q2) = match parse_id_field(input, q1, cend, TAG_ID_2, TAG_ID_3) {
        Ok(v) => v,
        Err(e) => return Err(e),
    };
    let (other_chunk_id_1, q3) = match parse_id_field(input, q2, cend, TAG_ID_3, TAG_DONE) {
        Ok(v) => v,
        Err(e) => return Err(e),
    };
    let q4 = match expect_byte(input, q3, cend, TAG_DONE) {
        Ok(v) => v,
        Err(e) => return Err(e),
    };
    let (done_flag, q5) = match read_u32_le(input, q4, cend) {
        Ok(v) => v,
        Err(e) => return Err(e),
    };
    if done_flag != 0 {
        return Ok(
            (
                TextChunk {
                    chunk_id,
                    other_chunk_id_0,
                    other_chunk_id_1,
                    done_flag,
                    text: String::new(),
                    magic_dollar: None,
                },
                cend,
            ),
        );
    }
    let q6 = match expect_byte(input, q5, cend, TAG_DETAIL) {
        Ok(v) => v,
        Err(e) => return Err(e),
    };
    let (len_chunk, q7) = match read_u32_le(input, q6, cend) {
        Ok(v) => v,
        Err(e) => return Err(e),
    };
    let (len_string, r1) = match read_u8(input, q7, cend) {
        Ok(v) => v,
        Err(e) => return Err(e),
    };
    let r2 = match expect_byte(input, r1, cend, TAG_STRING) {
        Ok(v) => v,
        Err(e) => return Err(e),
    };
    let (text_bytes, r3) = match take_bytes(input, r2, cend, len_string as usize) {
        Ok(v) => v,
        Err(e) => return Err(e),
    };
    if len_chunk < len_string as u32 + 2 {
        return Err(RMError::ArithmeticInconsistency { offset: q6 });
    }
    let magic_dollar: Option<u32> = if len_chunk - len_string as u32 - 2 == 5 {
        let m1 = match expect_byte(input, r3, cend, TAG_WORD) {
            Ok(v) => v,
            Err(e) => return Err(e),
        };
        let (w, _m2) = match read_u32_le(input, m1, cend) {
            Ok(v) => v,
            Err(e) => return Err(e),
        };
        Some(w)
    } else {
        None
    };
    let text = match utf8_to_string(text_bytes) {
        Some(t) => t,
        None => return Err(RMError::InvalidUtf8 { offset: r2 }),
    };
    Ok(
        (
            TextChunk {
                chunk_id,
                other_chunk_id_0,
                other_chunk_id_1,
                done_flag: 0,
                text,
                magic_dollar,
            },
            cend,
        ),
    )
}

/// `n` consecutive text chunks.
pub open spec fn sp_parse_chunks(s: Seq<u8>, pos: int, end: int, n: u8) -> Result<
    (Seq<SpecTextChunk>, int),
    RMError,
>
    decreases n,
{
    if n == 0 {
        Ok((Seq::empty(), pos))
    } else {
        match sp_parse_text_chunk(s, pos, end) {
            Err(e) => Err(e),
            Ok((c, p2)) => match sp_parse_chunks(s, p2, end, (n - 1) as u8) {
                Err(e) => Err(e),
                Ok((rest, p3)) => Ok((seq![c] + rest, p3)),
            },
        }
    }
}

/// Parses `n` consecutive text chunks.
fn parse_chunks(input: &[u8], pos: usize, end: usize, n: u8) -> (r: Result<
    (Vec<TextChunk>, usize),
    RMError,
>)
    requires
        pos <= end <= input@.len(),
    ensures
        match (r, sp_parse_chunks(input@, pos as int, end as int, n)) {
            (Ok((v, q)), Ok((gv, gq))) => v@.map_values(|c: TextChunk| c@) == gv && q as int == gq,
            (Err(e), Err(ge)) => e == ge,
            _ => false,
        },
        r matches Ok((v, q)) ==> pos <= q <= end,
{
    let ghost total = sp_parse_chunks(input@, pos as int, end as int, n);
    let mut chunks: Vec<TextChunk> = Vec::new();
    let mut cur: usize = pos;
    let mut i: u8 = 0;
    while i < n
        invariant
            pos <= cur <= end <= input@.len(),
            i <= n,
            total == sp_parse_chunks(input@, pos as int, end as int, n),
            match sp_parse_chunks(input@, cur as int, end as int, (n - i) as u8) {
                Ok((rest, e)) => total == Ok::<(Seq<SpecTextChunk>, int), RMError>(
                    (chunks@.map_values(|c: TextChunk| c@) + rest, e),
                ),
                Err(er) => total == Err::<(Seq<SpecTextChunk>, int), RMError>(er),
            },
        decreases n - i,
    {
        match parse_text_chunk(input, cur, end) {
            Err(e) => {
                return Err(e);
            },
            Ok((c, p2)) => {
                let ghost prev = chunks@;
                chunks.push(c);
                proof {
                    match sp_parse_chunks(input@, p2 as int, end as int, (n - i - 1) as u8) {
                        Ok((rest2, _e2)) => {
                            assert(prev.map_values(|c: TextChunk| c@) + (seq![c@] + rest2)
                                =~= chunks@.map_values(|c: TextChunk| c@) + rest2);
                        },
                        Err(_) => {},
                    }
                }
                cur = p2;
                i = i + 1;
            },
        }
    }
    proof {
        assert(chunks@.map_values(|c: TextChunk| c@) + Seq::<SpecTextChunk>::empty()
            =~= chunks@.map_values(|c: TextChunk| c@));
    }
    Ok((chunks, cur))
}

/// One backmatter record: a length-prefixed body holding one reserved
/// byte, two raw two-byte ids, and a length-counted third id.
pub open spec fn sp_parse_text_backmatter(s: Seq<u8>, pos: int, end: int) -> Result<
    (SpecTextBackmatter, int),
    RMError,
> {
    match sp_expect(s, pos, end, TAG_BACKMATTER) {
        Err(e) => Err(e),
        Ok(p1) => match sp_read_u32(s, p1, end) {
            Err(e) => Err(e),
            Ok((len, p2)) => if end - p2 < len {
                Err(RMError::TruncatedInput { offset: p2 as usize, needed: len as usize })
            } else {
                let bend = p2 + len;
                match sp_read_u8(s, p2, bend) {
                    Err(e) => Err(e),
                    Ok((_skip, q1)) => match sp_take(s, q1, bend, 2) {
                        Err(e) => Err(e),
                        Ok((id0b, q2)) => match sp_expect(s, q2, bend, TAG_ID_0) {
                            Err(e) => Err(e),
                            Ok(q3) => match sp_take(s, q3, bend, 2) {
                                Err(e) => Err(e),
                                Ok((id1b, q4)) => match sp_expect(s, q4, bend, TAG_SUBBLOCK) {
                                    Err(e) => Err(e),
                                    Ok(q5) => match sp_read_u32(s, q5, bend) {
                                        Err(e) => Err(e),
                                        Ok((len2, q6)) => if bend - q6 < len2 {
                                            Err(
                                                RMError::TruncatedInput {
                                                    offset: q6 as usize,
                                                    needed: len2 as usize,
                                                },
                                            )
                                        } else if len2 == 0 || len2 > 3 {
                                            Err(
                                                RMError::ArithmeticInconsistency {
                                                    offset: q6 as usize,
                                                },
                                            )
                                        } else {
                                            Ok(
                                                (
                                                    SpecTextBackmatter {
                                                        id_field_0: pad3(id0b),
                                                        id_field_1: pad3(id1b),
                                                        id_field_2: pad3(
                                                            s.subrange(q6, q6 + len2),
                                                        ),
                                                    },
                                                    bend,
                                                ),
                                            )
                                        },
                                    },
                                },
                            },
                        },
                    },
                }
            },
        },
    }
}

/// Parses one backmatter record.
pub fn parse_text_backmatter(input: &[u8], pos: usize, end: usize) -> (r: Result<
    (TextBackmatter, usize),
    RMError,
>)
    requires
        pos <= end <= input@.len(),
    ensures
        res_matches(r, sp_parse_text_backmatter(input@, pos as int, end as int)),
        r matches Ok((v, q)) ==> pos < q <= end,
{
    let p1 = match expect_byte(input, pos, end, TAG_BACKMATTER) {
        Ok(v) => v,
        Err(e) => return Err(e),
    };
    let (len, p2) = match read_u32_le(input, p1, end) {
        Ok(v) => v,
        Err(e) => return Err(e),
    };
    let len_us = len as usize;
    if end - p2 < len_us {
        return Err(RMError::TruncatedInput { offset: p2, needed: len_us });
    }
    let bend = p2 + len_us;
    let (_skip, q1) = match read_u8(input, p2, bend) {
        Ok(v) => v,
        Err(e) => return Err(e),
    };
    let (id0b, q2) = match take_bytes(input, q1, bend, 2) {
        Ok(v) => v,
        Err(e) => return Err(e),
    };
    let q3 = match expect_byte(input, q2, bend, TAG_ID_0) {
        Ok(v) => v,
        Err(e) => return Err(e),
    };
    let (id1b, q4) = match take_bytes(input, q3, bend, 2) {
        Ok(v) => v,
        Err(e) => return Err(e),
    };
    let q5 = match expect_byte(input, q4, bend, TAG_SUBBLOCK) {
        Ok(v) => v,
        Err(e) => return Err(e),
    };
    let (len2, q6) = match read_u32_le(input, q5, bend) {
        Ok(v) => v,
        Err(e) => return Err(e),
    };
    let len2_us = len2 as usize;
    if bend - q6 < len2_us {
        return Err(RMError::TruncatedInput { offset: q6, needed: len2_us });
    }
    if len2 == 0 || len2 > 3 {
        return Err(RMError::ArithmeticInconsistency { offset: q6 });
    }
    let (id2b, _q7) = match take_bytes(input, q6, bend, len2_us) {
        Ok(v) => v,
        Err(e) => return Err(e),
    };
    let id_field_0 = pad_id_field(id0b.as_slice());
    let id_field_1 = pad_id_field(id1b.as_slice());
    let id_field_2 = pad_id_field(id2b.as_slice());
    Ok((TextBackmatter { id_field_0, id_field_1, id_field_2 }, bend))
}

/// As many backmatter records as parse, stopping at the first failure; the
/// result is the records and the position after the last one.
pub open spec fn sp_parse_backmatters(s: Seq<u8>, pos: int, end: int) -> (
    Seq<SpecTextBackmatter>,
    int,
)
    decreases end - pos,
{
    match sp_parse_text_backmatter(s, pos, end) {
        Err(_) => (Seq::empty(), pos),
        Ok((bm, p2)) => if pos < p2 <= end {
            let (rest, e) = sp_parse_backmatters(s, p2, end);
            (seq![bm] + rest, e)
        } else {
            (seq![bm], p2)
        },
    }
}

/// Parses backmatter records until one fails to parse.
fn parse_backmatters(input: &[u8], pos: usize, end: usize) -> (r: (Vec<TextBackmatter>, usize))
    requires
        pos <= end <= input@.len(),
    ensures
        ({
            let (gs, ge) = sp_parse_backmatters(input@, pos as int, end as int);
            r.0@.map_values(|b: TextBackmatter| b@) == gs && r.1 as int == ge && pos <= r.1 <= end
        }),
{
    let ghost total = sp_parse_backmatters(input@, pos as int, end as int);
    let mut items: Vec<TextBackmatter> = Vec::new();
    let mut cur: usize = pos;
    loop
        invariant
            pos <= cur <= end <= input@.len(),
            total == sp_parse_backmatters(input@, pos as int, end as int),
            ({
                let (rest, e) = sp_parse_backmatters(input@, cur as int, end as int);
                total == ((items@.map_values(|b: TextBackmatter| b@) + rest), e)
            }),
        ensures
            items@.map_values(|b: TextBackmatter| b@) == total.0,
            cur as int == total.1,
            pos <= cur <= end,
        decreases end - cur,
    {
        match parse_text_backmatter(input, cur, end) {
            Err(_) => {
                proof {
                    assert(items@.map_values(|b: TextBackmatter| b@)
                        + Seq::<SpecTextBackmatter>::empty() =~= items@.map_values(
                        |b: TextBackmatter| b@,
                    ));
                }
                break;
            },
            Ok((bm, p2)) => {
                let ghost prev = items@;
                items.push(bm);
                proof {
                    let (rest2, _e2) = sp_parse_backmatters(input@, p2 as int, end as int);
                    assert(prev.map_values(|b: TextBackmatter| b@) + (seq![bm@] + rest2)
                        =~= items@.map_values(|b: TextBackmatter| b@) + rest2);
                }
                cur = p2;
            },
        }
    }
    (items, cur)
}

/// One text definition record: an id, three uninterpreted words, a counted
/// run of text chunks, a length-prefixed run of backmatter records, a
/// length-prefixed opaque run, and the remainder of the body kept verbatim.
/// The record always consumes its whole body.
pub open spec fn sp_parse_text_def(s: Seq<u8>, pos: int, end: int) -> Result<
    (SpecTextDef, int),
    RMError,
> {
    match sp_parse_id_field(s, pos, end, TAG_ID_0, TAG_SUBBLOCK) {
        Err(e) => Err(e),
        Ok((id_field_0, p1)) => match sp_expect(s, p1, end, TAG_SUBBLOCK) {
            Err(e) => Err(e),
            Ok(p2) => match sp_read_u32(s, p2, end) {
                Err(e) => Err(e),
                Ok((_w1, p3)) => match sp_expect(s, p3, end, TAG_BACKMATTER) {
                    Err(e) => Err(e),
                    Ok(p4) => match sp_read_u32(s, p4, end) {
                        Err(e) => Err(e),
                        Ok((_w2, p5)) => match sp_expect(s, p5, end, TAG_BACKMATTER) {
                            Err(e) => Err(e),
                            Ok(p6) => match sp_read_u32(s, p6, end) {
                                Err(e) => Err(e),
                                Ok((_w3, p7)) => match sp_read_u8(s, p7, end) {
                                    Err(e) => Err(e),
                                    Ok((nchunks, p8)) => match sp_parse_chunks(s, p8, end, nchunks) {
                                        Err(e) => Err(e),
                                        Ok((texts, p9)) => match sp_expect(s, p9, end, TAG_SUBBLOCK) {
                                            Err(e) => Err(e),
                                            Ok(p10) => match sp_read_u32(s, p10, end) {
                                                Err(e) => Err(e),
                                                Ok((blen, p11)) => if end - p11 < blen {
                                                    Err(
                                                        RMError::TruncatedInput {
                                                            offset: p11 as usize,
                                                            needed: blen as usize,
                                                        },
                                                    )
                                                } else {
                                                    let (backmatter, _bq) = sp_parse_backmatters(
                                                        s,
                                                        p11,
                                                        p11 + blen,
                                                    );
                                                    match sp_expect(s, p11 + blen, end, TAG_TRAILING) {
                                                        Err(e) => Err(e),
                                                        Ok(t1) => match sp_read_u32(s, t1, end) {
                                                            Err(e) => Err(e),
                                                            Ok((ulen, t2)) => if end - t2 < ulen {
                                                                Err(
                                                                    RMError::TruncatedInput {
                                                                        offset: t2 as usize,
                                                                        needed: ulen as usize,
                                                                    },
                                                                )
                                                            } else {
                                                                Ok(
                                                                    (
                                                                        SpecTextDef {
                                                                            id_field_0,
                                                                            texts,
                                                                            backmatter,
                                                                            unknown_sized: s.subrange(
                                                                                t2,
                                                                                t2 + ulen,
                                                                            ),
                                                                            unknown_unsized: s.subrange(
                                                                                t2 + ulen,
                                                                                end,
                                                                            ),
                                                                        },
                                                                        end,
                                                                    ),
                                                                )
                                                            },
                                                        },
                                                    }
                                                },
                                            },
                                        },
                                    },
                                },
                            },
                        },
                    },
                },
            },
        },
    }
}

/// Parses one text definition record.
#[verifier::rlimit(60)]
pub fn parse_text_def(input: &[u8], pos: usize, end: usize) -> (r: Result<
    (TextDef, usize),
    RMError,
>)
    requires
        pos <= end <= input@.len(),
    ensures
        res_matches(r, sp_parse_text_def(input@, pos as int, end as int)),
{
    let (id_field_0, p1) = match parse_id_field(input, pos, end, TAG_ID_0, TAG_SUBBLOCK) {
        Ok(v) => v,
        Err(e) => return Err(e),
    };
    let p2 = match expect_byte(input, p1, end, TAG_SUBBLOCK) {
        Ok(v) => v,
        Err(e) => return Err(e),
    };
    let (_w1, p3) = match read_u32_le(input, p2, end) {
        Ok(v) => v,
        Err(e) => return Err(e),
    };
    let p4 = match expect_byte(input, p3, end, TAG_BACKMATTER) {
        Ok(v) => v,
        Err(e) => return Err(e),
    };
    let (_w2, p5) = match read_u32_le(input, p4, end) {
        Ok(v) => v,
        Err(e) => return Err(e),
    };
    let p6 = match expect_byte(input, p5, end, TAG_BACKMATTER) {
        Ok(v) => v,
        Err(e) => return Err(e),
    };
    let (_w3, p7) = match read_u32_le(input, p6, end) {
        Ok(v) => v,
        Err(e) => return Err(e),
    };
    let (nchunks, p8) = match read_u8(input, p7, end) {
        Ok(v) => v,
        Err(e) => return Err(e),
    };
    let (texts, p9) = match parse_chunks(input, p8, end, nchunks) {
        Ok(v) => v,
        Err(e) => return Err(e),
    };
    let p10 = match expect_byte(input, p9, end, TAG_SUBBLOCK) {
        Ok(v) => v,
        Err(e) => return Err(e),
    };
    let (blen, p11) = match read_u32_le(input, p10, end) {
        Ok(v) => v,
        Err(e) => return Err(e),
    };
    let blen_us = blen as usize;
    if end - p11 < blen_us {
        return Err(RMError::TruncatedInput { offset: p11, needed: blen_us });
    }
    let (backmatter, _bq) = parse_backmatters(input, p11, p11 + blen_us);
    let t1 = match expect_byte(input, p11 + blen_us, end, TAG_TRAILING) {
        Ok(v) => v,
        Err(e) => return Err(e),
    };
    let (ulen, t2) = match read_u32_le(input, t1, end) {
        Ok(v) => v,
        Err(e) => return Err(e),
    };
    let ulen_us = ulen as usize;
    if end - t2 < ulen_us {
        return Err(RMError::TruncatedInput { offset: t2, needed: ulen_us });
    }
    let (unknown_sized, u0) = match take_bytes(input, t2, end, ulen_us) {
        Ok(v) => v,
        Err(e) => return Err(e),
    };
    let (unknown_unsized, _u1) = match take_bytes(input, u0, end, end - u0) {
        Ok(v) => v,
        Err(e) => return Err(e),
    };
    Ok((TextDef { id_field_0, texts, backmatter, unknown_sized, unknown_unsized }, end))
}

/// The version digit of a page file whose header text matches exactly.
pub open spec fn sp_parse_version(s: Seq<u8>) -> Result<u8, RMError> {
    if s.len() < 32 {
        Err(RMError::TruncatedInput { offset: 0, needed: 32 })
    } else if s.subrange(0, 32) != spec_header_text() {
        Err(RMError::HeaderMismatch { offset: 0 })
    } else if s.len() < 33 {
        Err(RMError::TruncatedInput { offset: 32, needed: 1 })
    } else if s[32] < 48 || s[32] > 57 {
        Err(RMError::HeaderMismatch { offset: 32 })
    } else {
        Ok((s[32] - 48) as u8)
    }
}

/// Validates the fixed header text and returns the version digit's value.
pub fn parse_version_header(input: &[u8]) -> (r: Result<u8, RMError>)
    ensures
        r == sp_parse_version(input@),
{
    if input.len() < 32 {
        return Err(RMError::TruncatedInput { offset: 0, needed: 32 });
    }
    let tag = header_text_bytes();
    let mut i: usize = 0;
    while i < 32
        invariant
            i <= 32,
            32 <= input@.len(),
            tag@ == spec_header_text(),
            forall|k: int| 0 <= k < i ==> input@[k] == spec_header_text()[k],
        decreases 32 - i,
    {
        if input[i] != tag[i] {
            proof {
                assert(input@.subrange(0, 32)[i as int] != spec_header_text()[i as int]);
            }
            return Err(RMError::HeaderMismatch { offset: 0 });
        }
        i = i + 1;
    }
    proof {
        assert(input@.subrange(0, 32) =~= spec_header_text());
    }
    if input.len() < 33 {
        return Err(RMError::TruncatedInput { offset: 32, needed: 1 });
    }
    let d = input[32];
    if d < 48 || d > 57 {
        return Err(RMError::HeaderMismatch { offset: 32 });
    }
    Ok(d - 48)
}

/// One framed block: a little-endian length, a 4-byte type flag, and a
/// body of exactly the declared length.  A recognised flag dispatches to
/// its body parser, which must accept a prefix of the body; any other flag
/// keeps flag and body verbatim.  A declared length beyond the remaining
/// buffer is a truncation failure.
pub open spec fn sp_parse_block(s: Seq<u8>, pos: int, end: int) -> Result<(SpecBlock, int), RMError> {
    match sp_read_u32(s, pos, end) {
        Err(e) => Err(e),
        Ok((len, p1)) => match sp_take(s, p1, end, 4) {
            Err(e) => Err(e),
            Ok((flag, p2)) => if end - p2 < len {
                Err(RMError::TruncatedInput { offset: p2 as usize, needed: len as usize })
            } else {
                let bend = p2 + len;
                if flag == flag_layer_def() {
                    match sp_parse_layer_def(s, p2, bend) {
                        Err(e) => Err(e),
                        Ok((v, _)) => Ok((SpecBlock::LayerDef(v), bend)),
                    }
                } else if flag == flag_layer_name() {
                    match sp_parse_layer_name(s, p2, bend) {
                        Err(e) => Err(e),
                        Ok((v, _)) => Ok((SpecBlock::LayerName(v), bend)),
                    }
                } else if flag == flag_text_def() {
                    match sp_parse_text_def(s, p2, bend) {
                        Err(e) => Err(e),
                        Ok((v, _)) => Ok((SpecBlock::TextDef(v), bend)),
                    }
                } else if flag == flag_layer_info() {
                    match sp_parse_layer_info(s, p2, bend) {
                        Err(e) => Err(e),
                        Ok((v, _)) => Ok((SpecBlock::LayerInfo(v), bend)),
                    }
                } else if flag == flag_line() {
                    match sp_parse_line(s, p2, bend) {
                        Err(e) => Err(e),
                        Ok((v, _)) => Ok((SpecBlock::Line(v), bend)),
                    }
                } else {
                    Ok((SpecBlock::Unknown(flag, s.subrange(p2, bend)), bend))
                }
            },
        },
    }
}

/// Parses one framed block starting at `pos`.
#[verifier::rlimit(60)]
pub fn parse_block(input: &[u8], pos: usize) -> (r: Result<(Block, usize), RMError>)
    requires
        pos <= input@.len(),
    ensures
        res_matches(r, sp_parse_block(input@, pos as int, input@.len() as int)),
        r matches Ok((b, q)) ==> pos < q <= input@.len(),
{
    let end = input.len();
    let (len, p1) = match read_u32_le(input, pos, end) {
        Ok(v) => v,
        Err(e) => return Err(e),
    };
    let (flag, p2) = match take_bytes(input, p1, end, 4) {
        Ok(v) => v,
        Err(e) => return Err(e),
    };
    let len_us = len as usize;
    if end - p2 < len_us {
        return Err(RMError::TruncatedInput { offset: p2, needed: len_us });
    }
    let bend = p2 + len_us;
    let f0 = flag[0];
    let f1 = flag[1];
    let f2 = flag[2];
    let f3 = flag[3];
    if f0 == 0 && f1 == 1 && f2 == 1 && f3 == 1 {
        proof {
            assert(flag@ =~= flag_layer_def());
        }
        match parse_layer_def(input, p2, bend) {
            Err(e) => Err(e),
            Ok((v, _)) => Ok((Block::LayerDef(v), bend)),
        }
    } else if f0 == 0 && f1 == 1 && f2 == 2 && f3 == 2 {
        proof {
            assert(flag@ =~= flag_layer_name());
        }
        match parse_layer_name(input, p2, bend) {
            Err(e) => Err(e),
            Ok((v, _)) => Ok((Block::LayerName(v), bend)),
        }
    } else if f0 == 0 && f1 == 1 && f2 == 1 && f3 == 7 {
        proof {
            assert(flag@ =~= flag_text_def());
        }
        match parse_text_def(input, p2, bend) {
            Err(e) => Err(e),
            Ok((v, _)) => Ok((Block::TextDef(v), bend)),
        }
    } else if f0 == 0 && f1 == 1 && f2 == 1 && f3 == 4 {
        proof {
            assert(flag@ =~= flag_layer_info());
        }
        match parse_layer_info(input, p2, bend) {
            Err(e) => Err(e),
            Ok((v, _)) => Ok((Block::LayerInfo(v), bend)),
        }
    } else if f0 == 0 && f1 == 2 && f2 == 2 && f3 == 5 {
        proof {
            assert(flag@ =~= flag_line());
        }
        match parse_line(input, p2, bend) {
            Err(e) => Err(e),
            Ok((v, _)) => Ok((Block::Line(v), bend)),
        }
    } else {
        let (body, _q) = match take_bytes(input, p2, bend, len_us) {
            Ok(v) => v,
            Err(e) => return Err(e),
        };
        Ok((Block::Unknown(flag, body), bend))
    }
}

/// Block after block until the buffer is exhausted; any block failure is
/// the stream's failure.
pub open spec fn sp_parse_blocks(s: Seq<u8>, pos: int, end: int) -> Result<
    (Seq<SpecBlock>, int),
    RMError,
>
    decreases end - pos,
{
    if pos >= end {
        Ok((Seq::empty(), pos))
    } else {
        match sp_parse_block(s, pos, end) {
            Err(e) => Err(e),
            Ok((b, p2)) => if pos < p2 <= end {
                match sp_parse_blocks(s, p2, end) {
                    Err(e) => Err(e),
                    Ok((rest, e2)) => Ok((seq![b] + rest, e2)),
                }
            } else {
                Ok((seq![b], p2))
            },
        }
    }
}

/// Parses blocks until the end of the buffer.
pub fn parse_blocks(input: &[u8], pos: usize) -> (r: Result<(Vec<Block>, usize), RMError>)
    requires
        pos <= input@.len(),
    ensures
        match (r, sp_parse_blocks(input@, pos as int, input@.len() as int)) {
            (Ok((v, q)), Ok((gv, gq))) => v@.map_values(|b: Block| b@) == gv && q as int == gq,
            (Err(e), Err(ge)) => e == ge,
            _ => false,
        },
{
    let end = input.len();
    let ghost total = sp_parse_blocks(input@, pos as int, end as int);
    let mut blocks: Vec<Block> = Vec::new();
    let mut cur: usize = pos;
    while cur < end
        invariant
            pos <= cur <= end == input@.len(),
            total == sp_parse_blocks(input@, pos as int, end as int),
            match sp_parse_blocks(input@, cur as int, end as int) {
                Ok((rest, e)) => total == Ok::<(Seq<SpecBlock>, int), RMError>(
                    (blocks@.map_values(|b: Block| b@) + rest, e),
                ),
                Err(er) => total == Err::<(Seq<SpecBlock>, int), RMError>(er),
            },
        decreases end - cur,
    {
        match parse_block(input, cur) {
            Err(e) => {
                return Err(e);
            },
            Ok((b, p2)) => {
                let ghost prev = blocks@;
                blocks.push(b);
                proof {
                    match sp_parse_blocks(input@, p2 as int, end as int) {
                        Ok((rest2, _e2)) => {
                            assert(prev.map_values(|b: Block| b@) + (seq![b@] + rest2)
                                =~= blocks@.map_values(|b: Block| b@) + rest2);
                        },
                        Err(_) => {},
                    }
                }
                cur = p2;
            },
        }
    }
    proof {
        assert(blocks@.map_values(|b: Block| b@) + Seq::<SpecBlock>::empty() =~= blocks@.map_values(
            |b: Block| b@,
        ));
    }
    Ok((blocks, cur))
}

/// One whole page file: the validated frontmatter, then every block until
/// the buffer ends; a file with no block at all is a failure.
pub open spec fn sp_parse_full(s: Seq<u8>) -> Result<SpecNotebook, RMError> {
    match sp_parse_version(s) {
        Err(e) => Err(e),
        Ok(version) => if s.len() < 163 {
            Err(RMError::TruncatedInput { offset: 33, needed: 130 })
        } else {
            match sp_parse_blocks(s, 163, s.len() as int) {
                Err(e) => Err(e),
                Ok((blocks, _)) => if blocks.len() == 0 {
                    Err(RMError::TruncatedInput { offset: 163, needed: 8 })
                } else {
                    Ok(
                        SpecNotebook {
                            frontmatter: SpecFrontmatter { version, unknown: s.subrange(33, 163) },
                            blocks,
                        },
                    )
                },
            }
        },
    }
}

/// Decodes one whole page file into a notebook.
pub fn parse_full(input: &[u8]) -> (r: Result<Notebook, RMError>)
    ensures
        match r {
            Ok(nb) => sp_parse_full(input@) == Ok::<SpecNotebook, RMError>(nb@),
            Err(e) => sp_parse_full(input@) == Err::<SpecNotebook, RMError>(e),
        },
{
    let version = match parse_version_header(input) {
        Ok(v) => v,
        Err(e) => return Err(e),
    };
    if input.len() < PREAMBLE_LEN {
        return Err(RMError::TruncatedInput { offset: 33, needed: 130 });
    }
    let (unknown, _u) = match take_bytes(input, 33, PREAMBLE_LEN, PREAMBLE_LEN - 33) {
        Ok(v) => v,
        Err(e) => return Err(e),
    };
    let (blocks, _q) = match parse_blocks(input, PREAMBLE_LEN) {
        Ok(v) => v,
        Err(e) => return Err(e),
    };
    if blocks.len() == 0 {
        return Err(RMError::TruncatedInput { offset: 163, needed: 8 });
    }
    Ok(Notebook { frontmatter: Frontmatter { version, unknown }, blocks })
}

} // verus!
