use rmconvert::config::{MarkdownCfg, OutputFormat, Settings};
use rmconvert::render::{notebook_stats, render_markdown};
use rmconvert::svg::{create_border_path, default_point, line_blocks, stroke_from_points};
use rmconvert::types::{
    Block, Frontmatter, IdField, Line, Notebook, Point, RMError, TextChunk, TextDef,
};

fn chunk(text: &str) -> TextChunk {
    TextChunk {
        chunk_id: IdField([1, 0, 0]),
        other_chunk_id_0: IdField([2, 0, 0]),
        other_chunk_id_1: IdField([3, 0, 0]),
        done_flag: 0,
        text: String::from(text),
        magic_dollar: None,
    }
}

fn text_def(texts: Vec<TextChunk>) -> TextDef {
    TextDef {
        id_field_0: IdField([1, 0, 0]),
        texts,
        backmatter: Vec::new(),
        unknown_sized: Vec::new(),
        unknown_unsized: Vec::new(),
    }
}

fn stroke(points: Vec<Point>) -> Line {
    Line {
        layer_id: IdField([0, 0, 0]),
        line_id: IdField([1, 0, 0]),
        last_line_id: IdField([0, 0, 0]),
        id_field_0: IdField([0, 0, 0]),
        pen_type: Some(17),
        color: Some(0),
        brush_size: Some(2.0f32.to_bits()),
        points,
    }
}

fn notebook(blocks: Vec<Block>) -> Notebook {
    Notebook { frontmatter: Frontmatter { version: 6, unknown: vec![0u8; 130] }, blocks }
}

#[test]
fn markdown_joins_chunks_with_newlines() {
    let nb = notebook(vec![
        Block::TextDef(text_def(vec![chunk("alpha"), chunk("beta")])),
        Block::Line(stroke(Vec::new())),
        Block::TextDef(text_def(vec![chunk("gamma")])),
    ]);
    let text = render_markdown(&nb, MarkdownCfg {}).unwrap();
    assert_eq!(text, "alpha\nbeta\ngamma");
}

#[test]
fn markdown_of_empty_notebook_is_empty() {
    let nb = notebook(vec![Block::Line(stroke(Vec::new()))]);
    let text = render_markdown(&nb, MarkdownCfg {}).unwrap();
    assert_eq!(text, "");
}

#[test]
fn stats_count_blocks_and_points() {
    let p = default_point(0, 0);
    let nb = notebook(vec![
        Block::Line(stroke(vec![p, p, p])),
        Block::Line(stroke(vec![p])),
        Block::TextDef(text_def(vec![chunk("a")])),
        Block::Unknown(vec![9, 9, 9, 9], vec![1]),
    ]);
    let stats = notebook_stats(&nb);
    assert_eq!(stats.blocks, 4);
    assert_eq!(stats.lines, 2);
    assert_eq!(stats.points, 4);
    assert_eq!(stats.text_defs, 1);
    assert_eq!(stats.layer_defs, 0);
    assert_eq!(stats.layer_names, 0);
    assert_eq!(stats.layer_infos, 0);
}

#[test]
fn border_path_traces_the_view_box() {
    assert_eq!(create_border_path(), "M0,0 L1404,0 L1404,1872 L0,1872 z");
}

#[test]
fn line_blocks_selects_strokes_in_order() {
    let a = stroke(vec![default_point(1, 2)]);
    let b = stroke(Vec::new());
    let nb = notebook(vec![
        Block::TextDef(text_def(Vec::new())),
        Block::Line(a.clone()),
        Block::Unknown(vec![9, 9, 9, 9], vec![]),
        Block::Line(b.clone()),
    ]);
    let lines = line_blocks(&nb);
    assert_eq!(lines, vec![a, b]);
}

#[test]
fn default_point_synthesizes_dynamics() {
    let p = default_point(77, 88);
    assert_eq!(p.x, 77);
    assert_eq!(p.y, 88);
    assert_eq!(p.speed, 1);
    assert_eq!(p.width, 16);
    assert_eq!(p.direction, 0);
    assert_eq!(p.pressure, 22);
}

#[test]
fn stroke_from_points_assembles_a_well_formed_line() {
    let pts = vec![default_point(1, 2), default_point(3, 4)];
    let line = stroke_from_points(
        IdField([0, 11, 0]),
        IdField([1, 0, 0]),
        IdField([0, 0, 0]),
        17,
        0,
        2.0f32.to_bits(),
        pts.clone(),
    );
    assert_eq!(line.layer_id.0, [0, 11, 0]);
    assert_eq!(line.line_id.0, [1, 0, 0]);
    assert_eq!(line.last_line_id.0, [0, 0, 0]);
    assert_eq!(line.pen_type, Some(17));
    assert_eq!(line.color, Some(0));
    assert_eq!(line.brush_size, Some(2.0f32.to_bits()));
    assert_eq!(line.points, pts);
}

#[test]
fn settings_default_to_markdown() {
    let s = Settings::empty();
    assert_eq!(s.output.default, OutputFormat::Markdown);
    assert_eq!(s.rm_path, "");
    let s2 = Settings::new().unwrap();
    assert_eq!(s2.output.default, OutputFormat::Markdown);
}

#[test]
fn errors_describe_themselves() {
    assert_eq!(RMError::UnsupportedPathCommand.describe(), "unsupported path command");
    assert_eq!(
        RMError::TruncatedInput { offset: 0, needed: 4 }.describe(),
        "truncated input"
    );
}
