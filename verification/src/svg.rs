//! Integer-valued support for the SVG conversion layer.
//!
//! The floating-point halves of the conversion (coordinate shifts, curve
//! flattening, number formatting) live outside the library; what stands
//! here is everything the conversion decides over plain values: selecting
//! the stroke blocks of a notebook, the page geometry constants, the
//! synthesized stylus dynamics, and the assembly of new stroke records.

use vstd::prelude::*;
use vstd::string::StringExecFns;

use crate::types::{Block, IdField, Line, Notebook, Point, SpecBlock, SpecLine, spec_line_wf};

verus! {

/// Logical page width of the tablet's canonical coordinate space.
pub const WIDTH: u32 = 1404;

/// Logical page height of the tablet's canonical coordinate space.
pub const HEIGHT: u32 = 1872;

/// Horizontal shift between stored x coordinates and SVG x coordinates.
pub const HALF_WIDTH: u32 = 702;

/// Synthesized speed for points recovered from SVG geometry.
pub const DEFAULT_SPEED: u8 = 1;

/// Synthesized width for points recovered from SVG geometry.
pub const DEFAULT_WIDTH: u8 = 16;

/// Synthesized direction for points recovered from SVG geometry.
pub const DEFAULT_DIRECTION: u8 = 0;

/// Synthesized pressure for points recovered from SVG geometry.
pub const DEFAULT_PRESSURE: u8 = 22;

/// The path data of a rectangle tracing the full view box.
pub fn create_border_path() -> (r: String)
    ensures
        r@ == ("M0,0 L1404,0 L1404,1872 L0,1872 z")@,
{
    String::from_str("M0,0 L1404,0 L1404,1872 L0,1872 z")
}

/// The stroke records among a run of blocks, in document order.
pub open spec fn sp_line_blocks(blocks: Seq<SpecBlock>) -> Seq<SpecLine>
    decreases blocks.len(),
{
    if blocks.len() == 0 {
        Seq::empty()
    } else {
        let rest = sp_line_blocks(blocks.drop_first());
        match blocks[0] {
            SpecBlock::Line(l) => seq![l] + rest,
            _ => rest,
        }
    }
}

/// Appending a block appends its stroke (if it is one) to the selection.
pub proof fn lemma_line_blocks_push(blocks: Seq<SpecBlock>, b: SpecBlock)
    ensures
        sp_line_blocks(blocks.push(b)) == match b {
            SpecBlock::Line(l) => sp_line_blocks(blocks).push(l),
            _ => sp_line_blocks(blocks),
        },
    decreases blocks.len(),
{
    reveal_with_fuel(sp_line_blocks, 2);
    if blocks.len() == 0 {
        assert(blocks.push(b)[0] == b);
        assert(blocks.push(b).drop_first() =~= Seq::<SpecBlock>::empty());
        match b {
            SpecBlock::Line(l) => {
                assert(seq![l] + Seq::<SpecLine>::empty() =~= sp_line_blocks(blocks).push(l));
            },
            _ => {},
        }
    } else {
        assert(blocks.push(b)[0] == blocks[0]);
        assert(blocks.push(b).drop_first() =~= blocks.drop_first().push(b));
        lemma_line_blocks_push(blocks.drop_first(), b);
        match (blocks[0], b) {
            (SpecBlock::Line(h), SpecBlock::Line(l)) => {
                assert(seq![h] + sp_line_blocks(blocks.drop_first()).push(l) =~= (seq![h]
                    + sp_line_blocks(blocks.drop_first())).push(l));
            },
            _ => {},
        }
    }
}

/// Collects the stroke blocks of a notebook, in document order.
pub fn line_blocks(nb: &Notebook) -> (r: Vec<Line>)
    ensures
        r@.map_values(|l: Line| l@) == sp_line_blocks(nb@.blocks),
{
    let mut out: Vec<Line> = Vec::new();
    let n = nb.blocks.len();
    let mut i: usize = 0;
    while i < n
        invariant
            i <= n == nb.blocks@.len(),
            out@.map_values(|l: Line| l@) == sp_line_blocks(
                nb.blocks@.map_values(|b: Block| b@).take(i as int),
            ),
        decreases n - i,
    {
        let ghost gblocks = nb.blocks@.map_values(|b: Block| b@);
        proof {
            lemma_line_blocks_push(gblocks.take(i as int), gblocks[i as int]);
            assert(gblocks.take(i + 1) =~= gblocks.take(i as int).push(gblocks[i as int]));
        }
        match &nb.blocks[i] {
            Block::Line(l) => {
                let pts = l.points.clone();
                proof {
                    assert(pts@ =~= l.points@);
                }
                let copy = Line {
                    layer_id: l.layer_id,
                    line_id: l.line_id,
                    last_line_id: l.last_line_id,
                    id_field_0: l.id_field_0,
                    pen_type: l.pen_type,
                    color: l.color,
                    brush_size: l.brush_size,
                    points: pts,
                };
                let ghost prev = out@;
                out.push(copy);
                proof {
                    assert(out@.map_values(|l: Line| l@) =~= prev.map_values(|l: Line| l@).push(
                        copy@,
                    ));
                }
            },
            _ => {},
        }
        i = i + 1;
    }
    proof {
        assert(nb.blocks@.map_values(|b: Block| b@).take(n as int) =~= nb.blocks@.map_values(
            |b: Block| b@,
        ));
    }
    out
}

/// A point recovered from SVG geometry: the coordinate bits as given, the
/// stylus dynamics synthesized with the fixed defaults.
pub fn default_point(x_bits: u32, y_bits: u32) -> (r: Point)
    ensures
        r.x == x_bits,
        r.y == y_bits,
        r.speed == DEFAULT_SPEED,
        r.width == DEFAULT_WIDTH,
        r.direction == DEFAULT_DIRECTION,
        r.pressure == DEFAULT_PRESSURE,
{
    Point {
        x: x_bits,
        y: y_bits,
        speed: DEFAULT_SPEED,
        width: DEFAULT_WIDTH,
        direction: DEFAULT_DIRECTION,
        pressure: DEFAULT_PRESSURE,
    }
}

/// A new stroke record assembled from recovered points and the chained
/// ids, carrying the given pen settings; always well formed.
pub fn stroke_from_points(
    layer_id: IdField,
    line_id: IdField,
    last_line_id: IdField,
    pen_type: u32,
    color: u32,
    brush_size: u32,
    points: Vec<Point>,
) -> (r: Line)
    ensures
        r@ == (SpecLine {
            layer_id: layer_id@,
            line_id: line_id@,
            last_line_id: last_line_id@,
            id_field_0: seq![0u8, 0u8, 0u8],
            pen_type: Some(pen_type),
            color: Some(color),
            brush_size: Some(brush_size),
            points: points@,
        }),
        spec_line_wf(r@),
{
    let zero = IdField([0, 0, 0]);
    proof {
        assert(zero@ =~= seq![0u8, 0u8, 0u8]);
    }
    Line {
        layer_id,
        line_id,
        last_line_id,
        id_field_0: zero,
        pen_type: Some(pen_type),
        color: Some(color),
        brush_size: Some(brush_size),
        points,
    }
}

} // verus!
