use rmconvert::encode::{
    encode_block, encode_id_field, encode_line, encode_notebook, encode_point,
};
use rmconvert::parse::{
    pad_id_field, parse_block, parse_full, parse_id_field, parse_layer_def, parse_layer_info,
    parse_layer_name, parse_line, parse_point, parse_text_backmatter, parse_text_chunk,
    parse_text_def, parse_version_header,
};
use rmconvert::types::{Block, BlockKind, IdField, Line, Point, RMError};

fn sample_point() -> Point {
    Point {
        x: (-351.6873779296875f32).to_bits(),
        y: (321.1515197753906f32).to_bits(),
        speed: 1,
        width: 16,
        direction: 0,
        pressure: 22,
    }
}

fn sample_line() -> Line {
    Line {
        layer_id: IdField([0x00, 0x0b, 0x00]),
        line_id: IdField([0x01, 0x0e, 0x00]),
        last_line_id: IdField([0x00, 0x00, 0x00]),
        id_field_0: IdField([0x00, 0x00, 0x00]),
        pen_type: Some(17),
        color: Some(0),
        brush_size: Some(2.0f32.to_bits()),
        points: vec![sample_point()],
    }
}

/// The wire form of `sample_line`: the declared detail length covers the
/// whole detail region, three-byte trailer included, as the decoder reads
/// it back.
fn sample_line_bytes() -> Vec<u8> {
    vec![
        0x1f, 0x00, 0x0b, 0x2f, 0x01, 0x0e, 0x3f, 0x00, 0x00, 0x4f, 0x00, 0x00, 0x54, 0x00, 0x00,
        0x00, 0x00, 0x6c, 0x2f, 0x00, 0x00, 0x00, 0x03, 0x14, 0x11, 0x00, 0x00, 0x00, 0x24, 0x00,
        0x00, 0x00, 0x00, 0x38, 0x00, 0x00, 0x00, 0x00, 0x00, 0x00, 0x00, 0x40, 0x44, 0x00, 0x00,
        0x00, 0x00, 0x5c, 0x0e, 0x00, 0x00, 0x00, 0xfc, 0xd7, 0xaf, 0xc3, 0x65, 0x93, 0xa0, 0x43,
        0x01, 0x00, 0x10, 0x00, 0x00, 0x16, 0x6f, 0x00, 0x01,
    ]
}

fn sample_block_bytes() -> Vec<u8> {
    let body = sample_line_bytes();
    let mut out = vec![body.len() as u8, 0, 0, 0, 0, 2, 2, 5];
    out.extend_from_slice(&body);
    out
}

fn header_bytes(version: u8) -> Vec<u8> {
    let mut v = b"reMarkable .lines file, version=".to_vec();
    v.push(version);
    v
}

#[test]
fn dump_line() {
    let correct = sample_line_bytes();
    assert_eq!(correct, encode_line(&sample_line()));
}

#[test]
fn line_block_is_77_bytes() {
    let framed = encode_block(&Block::Line(sample_line())).unwrap();
    assert_eq!(framed.len(), 77);
    assert_eq!(framed, sample_block_bytes());
}

#[test]
fn line_block_round_trip() {
    let mut buf = sample_block_bytes();
    let framed_len = buf.len();
    buf.extend_from_slice(&[0xaa, 0xbb, 0xcc]);
    let (block, consumed) = parse_block(&buf, 0).unwrap();
    assert_eq!(consumed, framed_len);
    match &block {
        Block::Line(l) => assert_eq!(*l, sample_line()),
        _ => panic!("expected a stroke block"),
    }
    let reencoded = encode_block(&block).unwrap();
    assert_eq!(reencoded, buf[..framed_len].to_vec());
}

#[test]
fn placeholder_line_round_trip() {
    let line = Line {
        layer_id: IdField([3, 4, 0]),
        line_id: IdField([5, 6, 7]),
        last_line_id: IdField([0, 0, 0]),
        id_field_0: IdField([0, 0, 0]),
        pen_type: None,
        color: None,
        brush_size: None,
        points: Vec::new(),
    };
    let body = encode_line(&line);
    // the id prefix, the placeholder done word, and the trailer
    assert_eq!(
        body,
        vec![0x1f, 3, 4, 0x2f, 5, 6, 7, 0x3f, 0, 0, 0x4f, 0, 0, 0x54, 1, 0, 0, 0, 0x6f, 0, 1]
    );
    let framed = encode_block(&Block::Line(line.clone())).unwrap();
    let (block, consumed) = parse_block(&framed, 0).unwrap();
    assert_eq!(consumed, framed.len());
    match &block {
        Block::Line(l) => assert_eq!(*l, line),
        _ => panic!("expected a stroke block"),
    }
    assert_eq!(encode_block(&block).unwrap(), framed);
}

#[test]
fn compact_id_two_or_three_bytes() {
    assert_eq!(encode_id_field(&IdField([1, 2, 0])), vec![1, 2]);
    assert_eq!(encode_id_field(&IdField([1, 2, 3])), vec![1, 2, 3]);
    assert_eq!(encode_id_field(&IdField([0, 0, 0])), vec![0, 0]);
}

#[test]
fn increment_carries_to_second_position() {
    let mut id = IdField([127, 0, 0]);
    id.inc(0);
    assert_eq!(id.0, [0, 1, 0]);
}

#[test]
fn increment_carries_to_third_position() {
    let mut id = IdField([127, 127, 0]);
    id.inc(0);
    assert_eq!(id.0, [0, 0, 1]);
}

#[test]
fn increment_simple_and_wraparound() {
    let mut id = IdField([5, 9, 2]);
    id.inc(1);
    assert_eq!(id.0, [5, 10, 2]);
    let mut third = IdField([0, 0, 127]);
    third.inc(2);
    assert_eq!(third.0, [1, 0, 0]);
    let mut full = IdField([127, 127, 127]);
    full.inc(0);
    assert_eq!(full.0, [1, 0, 0]);
}

#[test]
fn truncated_block_length_fails() {
    let buf = vec![100, 0, 0, 0, 0, 2, 2, 5, 1, 2, 3];
    let r = parse_block(&buf, 0);
    assert_eq!(r, Err(RMError::TruncatedInput { offset: 8, needed: 100 }));
}

#[test]
fn truncated_detail_region_fails() {
    // ids, done word zero, detail tag, then a length larger than the body
    let body = vec![
        0x1f, 1, 0x2f, 2, 0x3f, 3, 0x4f, 4, 0x54, 0, 0, 0, 0, 0x6c, 99, 0, 0, 0,
    ];
    let r = parse_line(&body, 0, body.len());
    assert_eq!(r, Err(RMError::TruncatedInput { offset: 18, needed: 99 }));
}

#[test]
fn sentinel_mismatch_is_reported() {
    // corrupting the done-word sentinel makes the fourth id field overlong,
    // reported as the delimiter missing where it was expected
    let mut body = sample_line_bytes();
    body[12] = 0x55;
    let r = parse_line(&body, 0, body.len());
    assert_eq!(
        r,
        Err(RMError::SentinelMismatch { offset: 13, expected: 0x54, found: 0x00 })
    );
}

#[test]
fn unknown_block_passes_through() {
    let buf = vec![3, 0, 0, 0, 9, 9, 9, 9, 1, 2, 3];
    let (block, consumed) = parse_block(&buf, 0).unwrap();
    assert_eq!(consumed, buf.len());
    match &block {
        Block::Unknown(flag, body) => {
            assert_eq!(flag, &vec![9, 9, 9, 9]);
            assert_eq!(body, &vec![1, 2, 3]);
        },
        _ => panic!("expected an unknown block"),
    }
    assert_eq!(encode_block(&block).unwrap(), buf);
}

#[test]
fn encode_refuses_unsupported_variants() {
    let bytes = vec![0x1f, 1, 2, 0x2f, 0xaa, 0xbb, 0x4c, 3, 0, 0, 0, 0x1f, 7, 8];
    let (def, _) = parse_layer_def(&bytes, 0, bytes.len()).unwrap();
    let r = encode_block(&Block::LayerDef(def));
    assert_eq!(r, Err(RMError::EncodeUnsupported { kind: BlockKind::LayerDef }));
}

#[test]
fn version_header_is_read() {
    let v = header_bytes(b'6');
    assert_eq!(parse_version_header(&v), Ok(6));
}

#[test]
fn version_header_mismatch() {
    let mut v = header_bytes(b'6');
    v[0] = b'X';
    assert_eq!(parse_version_header(&v), Err(RMError::HeaderMismatch { offset: 0 }));
    let bad_digit = header_bytes(b'x');
    assert_eq!(
        parse_version_header(&bad_digit),
        Err(RMError::HeaderMismatch { offset: 32 })
    );
    let short = b"reMarkable".to_vec();
    assert_eq!(
        parse_version_header(&short),
        Err(RMError::TruncatedInput { offset: 0, needed: 32 })
    );
}

#[test]
fn parse_full_and_reencode() {
    let mut file = header_bytes(b'6');
    file.extend_from_slice(&[0u8; 130]);
    assert_eq!(file.len(), 163);
    file.extend_from_slice(&sample_block_bytes());
    let nb = parse_full(&file).unwrap();
    assert_eq!(nb.frontmatter.version, 6);
    assert_eq!(nb.blocks.len(), 1);
    match &nb.blocks[0] {
        Block::Line(l) => assert_eq!(*l, sample_line()),
        _ => panic!("expected a stroke block"),
    }
    let reencoded = encode_notebook(&nb).unwrap();
    assert_eq!(reencoded, file);
}

#[test]
fn parse_full_with_several_blocks() {
    let mut file = header_bytes(b'6');
    file.extend_from_slice(&[0u8; 130]);
    file.extend_from_slice(&sample_block_bytes());
    file.extend_from_slice(&[3, 0, 0, 0, 9, 9, 9, 9, 1, 2, 3]);
    let nb = parse_full(&file).unwrap();
    assert_eq!(nb.blocks.len(), 2);
    assert!(matches!(nb.blocks[0], Block::Line(_)));
    assert!(matches!(nb.blocks[1], Block::Unknown(_, _)));
    assert_eq!(encode_notebook(&nb).unwrap(), file);
}

#[test]
fn parse_full_requires_a_block() {
    let mut file = header_bytes(b'6');
    file.extend_from_slice(&[0u8; 130]);
    let r = parse_full(&file);
    assert_eq!(r, Err(RMError::TruncatedInput { offset: 163, needed: 8 }));
}

#[test]
fn point_record_round_trip() {
    let p = sample_point();
    let bytes = encode_point(&p);
    assert_eq!(bytes.len(), 14);
    let (q, consumed) = parse_point(&bytes, 0, bytes.len()).unwrap();
    assert_eq!(consumed, 14);
    assert_eq!(q, p);
}

#[test]
fn pad_id_field_pads_short_fields() {
    assert_eq!(pad_id_field(&[1]).0, [1, 0, 0]);
    assert_eq!(pad_id_field(&[1, 2]).0, [1, 2, 0]);
    assert_eq!(pad_id_field(&[1, 2, 3]).0, [1, 2, 3]);
}

#[test]
fn id_field_stops_at_delimiter() {
    let bytes = vec![0x1f, 8, 9, 0x2f, 1];
    let (id, consumed) = parse_id_field(&bytes, 0, bytes.len(), 0x1f, 0x2f).unwrap();
    assert_eq!(id.0, [8, 9, 0]);
    assert_eq!(consumed, 3);
}

#[test]
fn layer_def_is_parsed() {
    let bytes = vec![0x1f, 1, 2, 0x2f, 0xaa, 0xbb, 0x4c, 3, 0, 0, 0, 0x1f, 7, 8];
    let (def, consumed) = parse_layer_def(&bytes, 0, bytes.len()).unwrap();
    assert_eq!(consumed, bytes.len());
    assert_eq!(def.layer_id.0, [1, 2, 0]);
    assert_eq!(def.unknown_1, vec![0xaa, 0xbb]);
    assert_eq!(def.unknown_2, vec![7, 8]);
}

fn layer_name_bytes(name: &[u8]) -> Vec<u8> {
    let mut sub2 = vec![name.len() as u8, 0x01];
    sub2.extend_from_slice(name);
    let mut sub = vec![0x1f, 9, 0x2c, sub2.len() as u8, 0, 0, 0];
    sub.extend_from_slice(&sub2);
    let mut out = vec![0x1f, 5, 0x2c, sub.len() as u8, 0, 0, 0];
    out.extend_from_slice(&sub);
    out.extend_from_slice(&[0x3c, 2, 0, 0, 0, 0xde, 0xad]);
    out
}

#[test]
fn layer_name_is_parsed() {
    let bytes = layer_name_bytes(b"hi");
    let (name, consumed) = parse_layer_name(&bytes, 0, bytes.len()).unwrap();
    assert_eq!(consumed, bytes.len());
    assert_eq!(name.layer_id.0, [5, 0, 0]);
    assert_eq!(name.id_field_0.0, [9, 0, 0]);
    assert_eq!(name.name, "hi");
    assert_eq!(name.unknown_rest, vec![0xde, 0xad]);
}

#[test]
fn layer_name_rejects_invalid_utf8() {
    let bytes = layer_name_bytes(&[0xff, 0xfe]);
    let r = parse_layer_name(&bytes, 0, bytes.len());
    assert!(matches!(r, Err(RMError::InvalidUtf8 { .. })));
}

#[test]
fn layer_info_keeps_two_trailing_id_bytes() {
    let bytes = vec![
        0x1f, 1, 0x2f, 2, 0x3f, 3, 0x4f, 4, 0x54, 0, 0, 0, 0, 0x6c, 4, 0, 0, 0, 0x02, 0x2f, 7, 8,
    ];
    let (info, consumed) = parse_layer_info(&bytes, 0, bytes.len()).unwrap();
    assert_eq!(consumed, bytes.len());
    assert_eq!(info.id_field_0.0, [1, 0, 0]);
    assert_eq!(info.id_field_3.0, [4, 0, 0]);
    assert_eq!(info.layer_id.map(|id| id.0), Some([7, 8, 0]));
}

#[test]
fn layer_info_without_status_zero_has_no_layer_id() {
    let bytes = vec![0x1f, 1, 0x2f, 2, 0x3f, 3, 0x4f, 4, 0x54, 1, 0, 0, 0];
    let (info, consumed) = parse_layer_info(&bytes, 0, bytes.len()).unwrap();
    assert_eq!(consumed, bytes.len());
    assert_eq!(info.layer_id, None);
}

fn text_chunk_bytes(len_chunk: u32, text: &[u8], magic: Option<u32>) -> Vec<u8> {
    let mut body = vec![0x2f, 1, 0x3f, 2, 0x4f, 3, 0x54, 0, 0, 0, 0, 0x6c];
    body.extend_from_slice(&len_chunk.to_le_bytes());
    body.push(text.len() as u8);
    body.push(0x01);
    body.extend_from_slice(text);
    if let Some(w) = magic {
        body.push(0x24);
        body.extend_from_slice(&w.to_le_bytes());
    }
    let mut out = vec![0x0c, body.len() as u8, 0, 0, 0];
    out.extend_from_slice(&body);
    out
}

#[test]
fn text_chunk_with_trailing_word() {
    // declared chunk length - string length - 2 == 5 selects the word
    let bytes = text_chunk_bytes(9, b"ok", Some(42));
    let (chunk, consumed) = parse_text_chunk(&bytes, 0, bytes.len()).unwrap();
    assert_eq!(consumed, bytes.len());
    assert_eq!(chunk.chunk_id.0, [1, 0, 0]);
    assert_eq!(chunk.done_flag, 0);
    assert_eq!(chunk.text, "ok");
    assert_eq!(chunk.magic_dollar, Some(42));
}

#[test]
fn text_chunk_without_trailing_word() {
    let bytes = text_chunk_bytes(4, b"ok", None);
    let (chunk, consumed) = parse_text_chunk(&bytes, 0, bytes.len()).unwrap();
    assert_eq!(consumed, bytes.len());
    assert_eq!(chunk.text, "ok");
    assert_eq!(chunk.magic_dollar, None);
}

#[test]
fn text_chunk_count_underflow_is_reported() {
    let bytes = text_chunk_bytes(3, b"ok", None);
    let r = parse_text_chunk(&bytes, 0, bytes.len());
    assert!(matches!(r, Err(RMError::ArithmeticInconsistency { .. })));
}

fn text_backmatter_bytes() -> Vec<u8> {
    let inner = vec![0u8, 1, 2, 0x1f, 3, 4, 0x2c, 2, 0, 0, 0, 5, 6];
    let mut out = vec![0x1c, inner.len() as u8, 0, 0, 0];
    out.extend_from_slice(&inner);
    out
}

#[test]
fn text_backmatter_is_parsed() {
    let bytes = text_backmatter_bytes();
    let (bm, consumed) = parse_text_backmatter(&bytes, 0, bytes.len()).unwrap();
    assert_eq!(consumed, bytes.len());
    assert_eq!(bm.id_field_0.0, [1, 2, 0]);
    assert_eq!(bm.id_field_1.0, [3, 4, 0]);
    assert_eq!(bm.id_field_2.0, [5, 6, 0]);
}

fn frame(flag: [u8; 4], body: &[u8]) -> Vec<u8> {
    let mut out = (body.len() as u32).to_le_bytes().to_vec();
    out.extend_from_slice(&flag);
    out.extend_from_slice(body);
    out
}

#[test]
fn block_dispatch_recognises_each_flag() {
    let layer_def = vec![0x1f, 1, 2, 0x2f, 0xaa, 0xbb, 0x4c, 3, 0, 0, 0, 0x1f, 7, 8];
    let (b, _) = parse_block(&frame([0, 1, 1, 1], &layer_def), 0).unwrap();
    assert!(matches!(b, Block::LayerDef(_)));

    let layer_name = layer_name_bytes(b"hi");
    let (b, _) = parse_block(&frame([0, 1, 2, 2], &layer_name), 0).unwrap();
    assert!(matches!(b, Block::LayerName(_)));

    let layer_info = vec![0x1f, 1, 0x2f, 2, 0x3f, 3, 0x4f, 4, 0x54, 1, 0, 0, 0];
    let (b, _) = parse_block(&frame([0, 1, 1, 4], &layer_info), 0).unwrap();
    assert!(matches!(b, Block::LayerInfo(_)));

    let mut text_def = vec![0x1f, 1];
    text_def.extend_from_slice(&[0x2c, 0, 0, 0, 0]);
    text_def.extend_from_slice(&[0x1c, 0, 0, 0, 0]);
    text_def.extend_from_slice(&[0x1c, 0, 0, 0, 0]);
    text_def.push(0);
    text_def.extend_from_slice(&[0x2c, 0, 0, 0, 0]);
    text_def.extend_from_slice(&[0x3c, 0, 0, 0, 0]);
    let (b, _) = parse_block(&frame([0, 1, 1, 7], &text_def), 0).unwrap();
    assert!(matches!(b, Block::TextDef(_)));

    let (b, _) = parse_block(&frame([0, 2, 2, 5], &sample_line_bytes()), 0).unwrap();
    assert!(matches!(b, Block::Line(_)));
}

#[test]
fn text_def_is_parsed() {
    let mut body = vec![0x1f, 1];
    body.extend_from_slice(&[0x2c, 0, 0, 0, 0]);
    body.extend_from_slice(&[0x1c, 0, 0, 0, 0]);
    body.extend_from_slice(&[0x1c, 0, 0, 0, 0]);
    body.push(1);  // one chunk
    body.extend_from_slice(&text_chunk_bytes(4, b"ok", None));
    let bm = text_backmatter_bytes();
    body.push(0x2c);
    body.extend_from_slice(&(bm.len() as u32).to_le_bytes());
    body.extend_from_slice(&bm);
    body.extend_from_slice(&[0x3c, 2, 0, 0, 0, 9, 9]);
    body.extend_from_slice(&[7, 7, 7]);
    let (def, consumed) = parse_text_def(&body, 0, body.len()).unwrap();
    assert_eq!(consumed, body.len());
    assert_eq!(def.id_field_0.0, [1, 0, 0]);
    assert_eq!(def.texts.len(), 1);
    assert_eq!(def.texts[0].text, "ok");
    assert_eq!(def.backmatter.len(), 1);
    assert_eq!(def.backmatter[0].id_field_2.0, [5, 6, 0]);
    assert_eq!(def.unknown_sized, vec![9, 9]);
    assert_eq!(def.unknown_unsized, vec![7, 7, 7]);
}
