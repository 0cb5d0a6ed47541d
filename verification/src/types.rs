//! Data model for decoded page files.
//!
//! Every structure mirrors one wire-level record.  Floating-point samples
//! (point coordinates, brush sizes) are stored as the `u32` bit pattern of
//! the 32-bit float on the wire, which keeps decoding and re-encoding exact.
//!
//! Each executable type has a ghost mirror (`Spec*`) whose collection fields
//! are mathematical sequences; the `View` impls connect the two.

use vstd::prelude::*;

verus! {

/// A compact identifier: stored canonically as three bytes, written on the
/// wire as two bytes when the third byte is zero, three otherwise.
#[derive(Debug, Clone, Copy, PartialEq, Eq)]
pub struct IdField(pub [u8; 3]);

impl View for IdField {
    type V = Seq<u8>;

    open spec fn view(&self) -> Seq<u8> {
        self.0@
    }
}

/// The identifier produced by incrementing position `pos` of `id`.
///
/// A position whose value would reach 128 resets to zero and carries into
/// the next position in the fixed cyclic order 0 -> 1 -> 2 -> 0.
pub open spec fn spec_id_inc(id: Seq<u8>, pos: int) -> Seq<u8>
    recommends
        id.len() == 3,
        0 <= pos < 3,
{
    let p1 = if pos == 2 { 0int } else { pos + 1 };
    let p2 = if p1 == 2 { 0int } else { p1 + 1 };
    if id[pos] < 127 {
        id.update(pos, (id[pos] + 1) as u8)
    } else {
        let r0 = id.update(pos, 0u8);
        if r0[p1] < 127 {
            r0.update(p1, (r0[p1] + 1) as u8)
        } else {
            let r1 = r0.update(p1, 0u8);
            if r1[p2] < 127 {
                r1.update(p2, (r1[p2] + 1) as u8)
            } else {
                r1.update(p2, 0u8).update(pos, 1u8)
            }
        }
    }
}

impl IdField {
    /// Increment position `pos`, carrying into the next position (cyclic
    /// order 0 -> 1 -> 2 -> 0) whenever a position would reach 128.
    pub fn inc(&mut self, pos: usize)
        requires
            pos < 3,
        ensures
            final(self)@ == spec_id_inc(old(self)@, pos as int),
    {
        let (p1, p2): (usize, usize) = match pos {
            0 => (1, 2),
            1 => (2, 0),
            _ => (0, 1),
        };
        if self.0[pos] < 127 {
            let v = self.0[pos];
            self.0[pos] = v + 1;
        } else {
            self.0[pos] = 0;
            if self.0[p1] < 127 {
                let v = self.0[p1];
                self.0[p1] = v + 1;
            } else {
                self.0[p1] = 0;
                if self.0[p2] < 127 {
                    let v = self.0[p2];
                    self.0[p2] = v + 1;
                } else {
                    self.0[p2] = 0;
                    self.0[pos] = 1;
                }
            }
        }
        proof {
            assert(final(self)@ =~= spec_id_inc(old(self)@, pos as int));
        }
    }
}

/// One sampled stylus point.  `x` and `y` hold the bit patterns of the
/// 32-bit floats stored on the wire; the dynamics are single bytes.
#[derive(Debug, Clone, Copy, PartialEq, Eq, Structural)]
pub struct Point {
    pub x: u32,
    pub y: u32,
    pub speed: u8,
    pub width: u8,
    pub direction: u8,
    pub pressure: u8,
}

impl View for Point {
    type V = Point;

    open spec fn view(&self) -> Point {
        *self
    }
}

/// One stroke record.  The three optional fields are present exactly when
/// the wire-level done flag was zero; `brush_size` holds the float's bits.
#[derive(Debug, Clone, PartialEq)]
pub struct Line {
    pub layer_id: IdField,
    pub line_id: IdField,
    pub last_line_id: IdField,
    pub id_field_0: IdField,
    pub pen_type: Option<u32>,
    pub color: Option<u32>,
    pub brush_size: Option<u32>,
    pub points: Vec<Point>,
}

/// Ghost mirror of [`Line`].
pub struct SpecLine {
    pub layer_id: Seq<u8>,
    pub line_id: Seq<u8>,
    pub last_line_id: Seq<u8>,
    pub id_field_0: Seq<u8>,
    pub pen_type: Option<u32>,
    pub color: Option<u32>,
    pub brush_size: Option<u32>,
    pub points: Seq<Point>,
}

impl View for Line {
    type V = SpecLine;

    open spec fn view(&self) -> SpecLine {
        SpecLine {
            layer_id: self.layer_id@,
            line_id: self.line_id@,
            last_line_id: self.last_line_id@,
            id_field_0: self.id_field_0@,
            pen_type: self.pen_type,
            color: self.color,
            brush_size: self.brush_size,
            points: self.points@,
        }
    }
}

/// The structural invariant of a stroke: the three optional detail fields
/// are set together, and a placeholder stroke carries no points.
pub open spec fn spec_line_wf(l: SpecLine) -> bool {
    &&& l.layer_id.len() == 3
    &&& l.line_id.len() == 3
    &&& l.last_line_id.len() == 3
    &&& l.id_field_0.len() == 3
    &&& l.pen_type is Some <==> l.color is Some
    &&& l.pen_type is Some <==> l.brush_size is Some
    &&& l.pen_type is None ==> l.points.len() == 0
}

/// A stroke that can be written back to the wire: well formed, with a point
/// array whose declared byte length fits in the 32-bit length prefix.
pub open spec fn spec_line_encodable(l: SpecLine) -> bool {
    &&& spec_line_wf(l)
    &&& 33 + 14 * l.points.len() <= u32::MAX
}

/// Layer definition record: an id and two runs of bytes that the format
/// does not explain further.
#[derive(Debug, Clone, PartialEq)]
pub struct LayerDef {
    pub layer_id: IdField,
    pub unknown_1: Vec<u8>,
    pub unknown_2: Vec<u8>,
}

/// Ghost mirror of [`LayerDef`].
pub struct SpecLayerDef {
    pub layer_id: Seq<u8>,
    pub unknown_1: Seq<u8>,
    pub unknown_2: Seq<u8>,
}

impl View for LayerDef {
    type V = SpecLayerDef;

    open spec fn view(&self) -> SpecLayerDef {
        SpecLayerDef {
            layer_id: self.layer_id@,
            unknown_1: self.unknown_1@,
            unknown_2: self.unknown_2@,
        }
    }
}

/// Layer name record: two ids, a UTF-8 name, and an opaque trailing run.
#[derive(Debug, Clone, PartialEq)]
pub struct LayerName {
    pub layer_id: IdField,
    pub id_field_0: IdField,
    pub name: String,
    pub unknown_rest: Vec<u8>,
}

/// Ghost mirror of [`LayerName`].
pub struct SpecLayerName {
    pub layer_id: Seq<u8>,
    pub id_field_0: Seq<u8>,
    pub name: Seq<char>,
    pub unknown_rest: Seq<u8>,
}

impl View for LayerName {
    type V = SpecLayerName;

    open spec fn view(&self) -> SpecLayerName {
        SpecLayerName {
            layer_id: self.layer_id@,
            id_field_0: self.id_field_0@,
            name: self.name@,
            unknown_rest: self.unknown_rest@,
        }
    }
}

/// Layer info record: four correlated ids and an optional trailing layer
/// id, present only when the status word was zero.
#[derive(Debug, Clone, PartialEq)]
pub struct LayerInfo {
    pub id_field_0: IdField,
    pub id_field_1: IdField,
    pub id_field_2: IdField,
    pub id_field_3: IdField,
    pub layer_id: Option<IdField>,
}

/// Ghost mirror of [`LayerInfo`].
pub struct SpecLayerInfo {
    pub id_field_0: Seq<u8>,
    pub id_field_1: Seq<u8>,
    pub id_field_2: Seq<u8>,
    pub id_field_3: Seq<u8>,
    pub layer_id: Option<Seq<u8>>,
}

impl View for LayerInfo {
    type V = SpecLayerInfo;

    open spec fn view(&self) -> SpecLayerInfo {
        SpecLayerInfo {
            id_field_0: self.id_field_0@,
            id_field_1: self.id_field_1@,
            id_field_2: self.id_field_2@,
            id_field_3: self.id_field_3@,
            layer_id: match self.layer_id {
                Some(id) => Some(id@),
                None => None,
            },
        }
    }
}

/// One chunk of typed text: three ids, the wire done flag, and — when that
/// flag is zero — the text itself plus an optional trailing word whose
/// presence the format signals only through a byte-count check.
#[derive(Debug, Clone, PartialEq)]
pub struct TextChunk {
    pub chunk_id: IdField,
    pub other_chunk_id_0: IdField,
    pub other_chunk_id_1: IdField,
    pub done_flag: u32,
    pub text: String,
    pub magic_dollar: Option<u32>,
}

/// Ghost mirror of [`TextChunk`].
pub struct SpecTextChunk {
    pub chunk_id: Seq<u8>,
    pub other_chunk_id_0: Seq<u8>,
    pub other_chunk_id_1: Seq<u8>,
    pub done_flag: u32,
    pub text: Seq<char>,
    pub magic_dollar: Option<u32>,
}

impl View for TextChunk {
    type V = SpecTextChunk;

    open spec fn view(&self) -> SpecTextChunk {
        SpecTextChunk {
            chunk_id: self.chunk_id@,
            other_chunk_id_0: self.other_chunk_id_0@,
            other_chunk_id_1: self.other_chunk_id_1@,
            done_flag: self.done_flag,
            text: self.text@,
            magic_dollar: self.magic_dollar,
        }
    }
}

/// Backmatter record of a text block: three fixed-role ids.
#[derive(Debug, Clone, PartialEq)]
pub struct TextBackmatter {
    pub id_field_0: IdField,
    pub id_field_1: IdField,
    pub id_field_2: IdField,
}

/// Ghost mirror of [`TextBackmatter`].
pub struct SpecTextBackmatter {
    pub id_field_0: Seq<u8>,
    pub id_field_1: Seq<u8>,
    pub id_field_2: Seq<u8>,
}

impl View for TextBackmatter {
    type V = SpecTextBackmatter;

    open spec fn view(&self) -> SpecTextBackmatter {
        SpecTextBackmatter {
            id_field_0: self.id_field_0@,
            id_field_1: self.id_field_1@,
            id_field_2: self.id_field_2@,
        }
    }
}

/// Text definition record.  The two trailing byte runs are not understood
/// and are retained verbatim.
#[derive(Debug, Clone, PartialEq)]
pub struct TextDef {
    pub id_field_0: IdField,
    pub texts: Vec<TextChunk>,
    pub backmatter: Vec<TextBackmatter>,
    pub unknown_sized: Vec<u8>,
    pub unknown_unsized: Vec<u8>,
}

/// Ghost mirror of [`TextDef`].
pub struct SpecTextDef {
    pub id_field_0: Seq<u8>,
    pub texts: Seq<SpecTextChunk>,
    pub backmatter: Seq<SpecTextBackmatter>,
    pub unknown_sized: Seq<u8>,
    pub unknown_unsized: Seq<u8>,
}

impl View for TextDef {
    type V = SpecTextDef;

    open spec fn view(&self) -> SpecTextDef {
        SpecTextDef {
            id_field_0: self.id_field_0@,
            texts: self.texts@.map_values(|c: TextChunk| c@),
            backmatter: self.backmatter@.map_values(|b: TextBackmatter| b@),
            unknown_sized: self.unknown_sized@,
            unknown_unsized: self.unknown_unsized@,
        }
    }
}

/// The fixed-size header of a page file: the format version digit and the
/// reserved bytes between the header text and the first block.
#[derive(Debug, Clone, PartialEq)]
pub struct Frontmatter {
    pub version: u8,
    pub unknown: Vec<u8>,
}

/// Ghost mirror of [`Frontmatter`].
pub struct SpecFrontmatter {
    pub version: u8,
    pub unknown: Seq<u8>,
}

impl View for Frontmatter {
    type V = SpecFrontmatter;

    open spec fn view(&self) -> SpecFrontmatter {
        SpecFrontmatter { version: self.version, unknown: self.unknown@ }
    }
}

/// One block of a page file.  Unrecognised blocks keep their 4-byte flag
/// and raw body so that they pass through encoding bit for bit.
#[derive(Debug, Clone, PartialEq)]
pub enum Block {
    Line(Line),
    LayerDef(LayerDef),
    TextDef(TextDef),
    LayerName(LayerName),
    LayerInfo(LayerInfo),
    Unknown(Vec<u8>, Vec<u8>),
}

/// Ghost mirror of [`Block`].
pub enum SpecBlock {
    Line(SpecLine),
    LayerDef(SpecLayerDef),
    TextDef(SpecTextDef),
    LayerName(SpecLayerName),
    LayerInfo(SpecLayerInfo),
    Unknown(Seq<u8>, Seq<u8>),
}

impl View for Block {
    type V = SpecBlock;

    open spec fn view(&self) -> SpecBlock {
        match self {
            Block::Line(l) => SpecBlock::Line(l@),
            Block::LayerDef(l) => SpecBlock::LayerDef(l@),
            Block::TextDef(t) => SpecBlock::TextDef(t@),
            Block::LayerName(n) => SpecBlock::LayerName(n@),
            Block::LayerInfo(i) => SpecBlock::LayerInfo(i@),
            Block::Unknown(flag, body) => SpecBlock::Unknown(flag@, body@),
        }
    }
}

/// One decoded page file: the frontmatter and the ordered block stream.
#[derive(Debug, Clone, PartialEq)]
pub struct Notebook {
    pub frontmatter: Frontmatter,
    pub blocks: Vec<Block>,
}

/// Ghost mirror of [`Notebook`].
pub struct SpecNotebook {
    pub frontmatter: SpecFrontmatter,
    pub blocks: Seq<SpecBlock>,
}

impl View for Notebook {
    type V = SpecNotebook;

    open spec fn view(&self) -> SpecNotebook {
        SpecNotebook {
            frontmatter: self.frontmatter@,
            blocks: self.blocks@.map_values(|b: Block| b@),
        }
    }
}

/// Names a block variant, used when the encoder does not support one.
#[derive(Debug, Clone, Copy, PartialEq, Eq, Structural)]
pub enum BlockKind {
    Line,
    LayerDef,
    TextDef,
    LayerName,
    LayerInfo,
    Unknown,
}

/// A typed decoding, encoding or geometry failure.  Offsets are absolute
/// positions in the byte slice handed to the failing operation.
#[derive(Debug, Clone, Copy, PartialEq, Eq, Structural)]
pub enum RMError {
    /// Fewer bytes remained at `offset` than a declared length required.
    TruncatedInput { offset: usize, needed: usize },
    /// The frontmatter tag or its version digit did not match.
    HeaderMismatch { offset: usize },
    /// The delimiter byte `expected` was not found at `offset`.
    SentinelMismatch { offset: usize, expected: u8, found: u8 },
    /// A name or text field was not valid UTF-8.
    InvalidUtf8 { offset: usize },
    /// A path command outside the supported move/line/curve set.
    UnsupportedPathCommand,
    /// A transform attribute in a form other than a plain matrix.
    UnsupportedTransform,
    /// A byte-count bookkeeping field yielded an impossible remainder.
    ArithmeticInconsistency { offset: usize },
    /// The encoder does not support this block variant.
    EncodeUnsupported { kind: BlockKind },
}

impl RMError {
    /// A short stable name for the error class, for display by callers.
    pub fn describe(&self) -> (r: &'static str)
        ensures
            r@ == match self {
                RMError::TruncatedInput { .. } => "truncated input"@,
                RMError::HeaderMismatch { .. } => "header mismatch"@,
                RMError::SentinelMismatch { .. } => "sentinel mismatch"@,
                RMError::InvalidUtf8 { .. } => "invalid utf-8"@,
                RMError::UnsupportedPathCommand => "unsupported path command"@,
                RMError::UnsupportedTransform => "unsupported transform"@,
                RMError::ArithmeticInconsistency { .. } => "arithmetic inconsistency"@,
                RMError::EncodeUnsupported { .. } => "unsupported block variant"@,
            },
    {
        match self {
            RMError::TruncatedInput { .. } => "truncated input",
            RMError::HeaderMismatch { .. } => "header mismatch",
            RMError::SentinelMismatch { .. } => "sentinel mismatch",
            RMError::InvalidUtf8 { .. } => "invalid utf-8",
            RMError::UnsupportedPathCommand => "unsupported path command",
            RMError::UnsupportedTransform => "unsupported transform",
            RMError::ArithmeticInconsistency { .. } => "arithmetic inconsistency",
            RMError::EncodeUnsupported { .. } => "unsupported block variant",
        }
    }
}

/// Relates an executable parse result to its ghost-level counterpart: equal
/// positions and errors, and view-equal values.
pub open spec fn res_matches<T: View>(
    r: Result<(T, usize), RMError>,
    g: Result<(T::V, int), RMError>,
) -> bool {
    match (r, g) {
        (Ok((v, n)), Ok((gv, gn))) => v@ == gv && n as int == gn,
        (Err(e), Err(ge)) => e == ge,
        _ => false,
    }
}

} // verus!
