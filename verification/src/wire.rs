//! Byte-level primitives shared by the decoder and the encoder: the fixed
//! header text, the sentinel tag values, and bounds-checked readers whose
//! results are mirrored by ghost-level functions over byte sequences.
//!
//! All readers work on an absolute cursor `pos` within one byte slice and
//! never look at or beyond `end`, so a framed sub-region is parsed simply by
//! passing the region's end.

use vstd::prelude::*;

use crate::types::RMError;

verus! {

/// Sentinel tag preceding the first compact id of a record.
pub const TAG_ID_0: u8 = 0x1f;

/// Sentinel tag preceding the second compact id of a record.
pub const TAG_ID_1: u8 = 0x2f;

/// Sentinel tag preceding the third compact id of a record.
pub const TAG_ID_2: u8 = 0x3f;

/// Sentinel tag preceding the fourth compact id of a record.
pub const TAG_ID_3: u8 = 0x4f;

/// Sentinel tag preceding a done/status word.
pub const TAG_DONE: u8 = 0x54;

/// Sentinel tag preceding a length-prefixed detail region.
pub const TAG_DETAIL: u8 = 0x6c;

/// Sentinel tag preceding a length-prefixed sub-block.
pub const TAG_SUBBLOCK: u8 = 0x2c;

/// Sentinel tag preceding a length-prefixed trailing byte run.
pub const TAG_TRAILING: u8 = 0x3c;

/// Sentinel tag preceding the trailing region of a layer definition.
pub const TAG_LAYER_RUN: u8 = 0x4c;

/// Sentinel tag opening one text chunk.
pub const TAG_CHUNK: u8 = 0x0c;

/// Sentinel tag opening one backmatter record.
pub const TAG_BACKMATTER: u8 = 0x1c;

/// Sentinel tag preceding a color word or the optional trailing word of a
/// text chunk.
pub const TAG_WORD: u8 = 0x24;

/// First byte of the pen-type introducer inside a stroke's detail region.
pub const TAG_PEN_1: u8 = 0x03;

/// Second byte of the pen-type introducer inside a stroke's detail region.
pub const TAG_PEN_2: u8 = 0x14;

/// Sentinel tag preceding a brush-size float.
pub const TAG_BRUSH: u8 = 0x38;

/// Sentinel tag preceding the point array of a stroke.
pub const TAG_POINTS: u8 = 0x44;

/// Second byte of the point-array introducer.
pub const TAG_POINTS_2: u8 = 0x5c;

/// First byte of the three-byte record trailer.
pub const TAG_TRAILER: u8 = 0x6f;

/// Sentinel tag preceding an inline string.
pub const TAG_STRING: u8 = 0x01;

/// Length in bytes of the ASCII header text.
pub const HEADER_TEXT_LEN: usize = 32;

/// Total length of the frontmatter: header text, version digit, and the
/// reserved bytes before the first block.
pub const PREAMBLE_LEN: usize = 163;

/// The 4-byte type flag of a layer definition block.
pub open spec fn flag_layer_def() -> Seq<u8> {
    seq![0u8, 1u8, 1u8, 1u8]
}

/// The 4-byte type flag of a layer name block.
pub open spec fn flag_layer_name() -> Seq<u8> {
    seq![0u8, 1u8, 2u8, 2u8]
}

/// The 4-byte type flag of a text definition block.
pub open spec fn flag_text_def() -> Seq<u8> {
    seq![0u8, 1u8, 1u8, 7u8]
}

/// The 4-byte type flag of a layer info block.
pub open spec fn flag_layer_info() -> Seq<u8> {
    seq![0u8, 1u8, 1u8, 4u8]
}

/// The 4-byte type flag of a stroke block.
pub open spec fn flag_line() -> Seq<u8> {
    seq![0u8, 2u8, 2u8, 5u8]
}

/// The ASCII bytes of the fixed header text that opens every page file.
pub open spec fn spec_header_text() -> Seq<u8> {
    seq![
        114u8, 101, 77, 97, 114, 107, 97, 98, 108, 101, 32, 46, 108, 105, 110, 101, 115, 32, 102,
        105, 108, 101, 44, 32, 118, 101, 114, 115, 105, 111, 110, 61,
    ]
}

/// The fixed header text as bytes, for comparison and re-emission.
pub fn header_text_bytes() -> (r: Vec<u8>)
    ensures
        r@ == spec_header_text(),
{
    let mut v: Vec<u8> = Vec::new();
    v.push(114);
    v.push(101);
    v.push(77);
    v.push(97);
    v.push(114);
    v.push(107);
    v.push(97);
    v.push(98);
    v.push(108);
    v.push(101);
    v.push(32);
    v.push(46);
    v.push(108);
    v.push(105);
    v.push(110);
    v.push(101);
    v.push(115);
    v.push(32);
    v.push(102);
    v.push(105);
    v.push(108);
    v.push(101);
    v.push(44);
    v.push(32);
    v.push(118);
    v.push(101);
    v.push(114);
    v.push(115);
    v.push(105);
    v.push(111);
    v.push(110);
    v.push(61);
    proof {
        assert(v@ =~= spec_header_text());
    }
    v
}

/// Relates an executable read of a plain value to its ghost counterpart.
pub open spec fn prim_matches<T>(
    r: Result<(T, usize), RMError>,
    g: Result<(T, int), RMError>,
) -> bool {
    match (r, g) {
        (Ok((v, n)), Ok((gv, gn))) => v == gv && n as int == gn,
        (Err(e), Err(ge)) => e == ge,
        _ => false,
    }
}

/// One byte at `pos`, or a truncation error.
pub open spec fn sp_read_u8(s: Seq<u8>, pos: int, end: int) -> Result<(u8, int), RMError> {
    if end - pos < 1 {
        Err(RMError::TruncatedInput { offset: pos as usize, needed: 1 })
    } else {
        Ok((s[pos], pos + 1))
    }
}

/// Reads one byte and advances the cursor.
pub fn read_u8(input: &[u8], pos: usize, end: usize) -> (r: Result<(u8, usize), RMError>)
    requires
        pos <= end <= input@.len(),
    ensures
        prim_matches(r, sp_read_u8(input@, pos as int, end as int)),
{
    if end - pos < 1 {
        Err(RMError::TruncatedInput { offset: pos, needed: 1 })
    } else {
        Ok((input[pos], pos + 1))
    }
}

/// A little-endian 32-bit word at `pos`, or a truncation error.
pub open spec fn sp_read_u32(s: Seq<u8>, pos: int, end: int) -> Result<(u32, int), RMError> {
    if end - pos < 4 {
        Err(RMError::TruncatedInput { offset: pos as usize, needed: 4 })
    } else {
        Ok((vstd::bytes::spec_u32_from_le_bytes(s.subrange(pos, pos + 4)), pos + 4))
    }
}

/// Reads a little-endian 32-bit word and advances the cursor.
pub fn read_u32_le(input: &[u8], pos: usize, end: usize) -> (r: Result<(u32, usize), RMError>)
    requires
        pos <= end <= input@.len(),
    ensures
        prim_matches(r, sp_read_u32(input@, pos as int, end as int)),
{
    if end - pos < 4 {
        Err(RMError::TruncatedInput { offset: pos, needed: 4 })
    } else {
        let v = vstd::bytes::u32_from_le_bytes(&input[pos..pos + 4]);
        Ok((v, pos + 4))
    }
}

/// The cursor past a required sentinel byte, or the typed mismatch.
pub open spec fn sp_expect(s: Seq<u8>, pos: int, end: int, tag: u8) -> Result<int, RMError> {
    if end - pos < 1 {
        Err(RMError::TruncatedInput { offset: pos as usize, needed: 1 })
    } else if s[pos] != tag {
        Err(RMError::SentinelMismatch { offset: pos as usize, expected: tag, found: s[pos] })
    } else {
        Ok(pos + 1)
    }
}

/// Consumes one required sentinel byte.
pub fn expect_byte(input: &[u8], pos: usize, end: usize, tag: u8) -> (r: Result<usize, RMError>)
    requires
        pos <= end <= input@.len(),
    ensures
        match (r, sp_expect(input@, pos as int, end as int, tag)) {
            (Ok(n), Ok(gn)) => n as int == gn,
            (Err(e), Err(ge)) => e == ge,
            _ => false,
        },
{
    if end - pos < 1 {
        Err(RMError::TruncatedInput { offset: pos, needed: 1 })
    } else if input[pos] != tag {
        Err(RMError::SentinelMismatch { offset: pos, expected: tag, found: input[pos] })
    } else {
        Ok(pos + 1)
    }
}

/// `n` raw bytes from `pos`, or a truncation error naming the declared need.
pub open spec fn sp_take(s: Seq<u8>, pos: int, end: int, n: int) -> Result<(Seq<u8>, int), RMError> {
    if end - pos < n {
        Err(RMError::TruncatedInput { offset: pos as usize, needed: n as usize })
    } else {
        Ok((s.subrange(pos, pos + n), pos + n))
    }
}

/// Copies `n` bytes out of the input and advances the cursor.
pub fn take_bytes(input: &[u8], pos: usize, end: usize, n: usize) -> (r: Result<
    (Vec<u8>, usize),
    RMError,
>)
    requires
        pos <= end <= input@.len(),
    ensures
        crate::types::res_matches(r, sp_take(input@, pos as int, end as int, n as int)),
{
    if end - pos < n {
        Err(RMError::TruncatedInput { offset: pos, needed: n })
    } else {
        let mut v: Vec<u8> = Vec::new();
        let mut i: usize = 0;
        while i < n
            invariant
                pos + n <= end <= input@.len(),
                i <= n,
                v@ == input@.subrange(pos as int, pos + i),
            decreases n - i,
        {
            v.push(input[pos + i]);
            i = i + 1;
            proof {
                assert(v@ =~= input@.subrange(pos as int, pos + i));
            }
        }
        proof {
            assert(v@ =~= input@.subrange(pos as int, pos + n as int));
        }
        Ok((v, pos + n))
    }
}

/// First position in `[i, end)` holding `stop`, or `end` if none does.
pub open spec fn sp_scan(s: Seq<u8>, i: int, end: int, stop: u8) -> int
    decreases end - i,
{
    if i >= end {
        end
    } else if s[i] == stop {
        i
    } else {
        sp_scan(s, i + 1, end, stop)
    }
}

/// Scans forward to the next occurrence of `stop`, or to `end`.
pub fn scan_byte(input: &[u8], pos: usize, end: usize, stop: u8) -> (r: usize)
    requires
        pos <= end <= input@.len(),
    ensures
        r as int == sp_scan(input@, pos as int, end as int, stop),
        pos <= r <= end,
{
    let mut j: usize = pos;
    while j < end && input[j] != stop
        invariant
            pos <= j <= end <= input@.len(),
            sp_scan(input@, pos as int, end as int, stop) == sp_scan(
                input@,
                j as int,
                end as int,
                stop,
            ),
        decreases end - j,
    {
        j = j + 1;
    }
    j
}

/// Relies on `String::from_utf8`: it succeeds exactly on valid UTF-8 and
/// decodes it; vstd's `valid_utf8` and `decode_utf8` give that meaning.
#[verifier::external_body]
pub(crate) fn utf8_to_string(bytes: Vec<u8>) -> (r: Option<String>)
    ensures
        r is Some <==> vstd::utf8::valid_utf8(bytes@),
        r matches Some(s) ==> s@ == vstd::utf8::decode_utf8(bytes@),
{
    match String::from_utf8(bytes) {
        Ok(s) => Some(s),
        Err(_) => None,
    }
}

} // verus!
