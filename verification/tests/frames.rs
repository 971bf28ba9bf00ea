//! Tests for the chunk-frame reader and the whole-file assembler.

use dotvox::types::Chunk;
use dotvox::{parse_chunk, parse_file, DotVoxError, Material, SceneNode, Size, Voxel,
    MAX_NESTING_DEPTH};

fn le32(v: u32) -> Vec<u8> {
    v.to_le_bytes().to_vec()
}

fn lestr(s: &str) -> Vec<u8> {
    let mut out = le32(s.len() as u32);
    out.extend_from_slice(s.as_bytes());
    out
}

fn ledict(entries: &[(&str, &str)]) -> Vec<u8> {
    let mut out = le32(entries.len() as u32);
    for (k, v) in entries {
        out.extend(lestr(k));
        out.extend(lestr(v));
    }
    out
}

fn frame(tag: &[u8; 4], content: &[u8], children: &[u8]) -> Vec<u8> {
    let mut out = tag.to_vec();
    out.extend(le32(content.len() as u32));
    out.extend(le32(children.len() as u32));
    out.extend_from_slice(content);
    out.extend_from_slice(children);
    out
}

fn vox_file(children: &[u8]) -> Vec<u8> {
    let mut out = b"VOX ".to_vec();
    out.extend(le32(150));
    out.extend(frame(b"MAIN", &[], children));
    out
}

fn size_chunk(x: u32, y: u32, z: u32) -> Vec<u8> {
    let mut c = le32(x);
    c.extend(le32(y));
    c.extend(le32(z));
    frame(b"SIZE", &c, &[])
}

fn xyzi_chunk(voxels: &[(u8, u8, u8, u8)]) -> Vec<u8> {
    let mut c = le32(voxels.len() as u32);
    for (x, y, z, i) in voxels {
        c.extend_from_slice(&[*x, *y, *z, *i]);
    }
    frame(b"XYZI", &c, &[])
}

#[test]
fn framing_consumes_exactly_declared_span_known_tag() {
    // Bytes consumed are exactly content + children + 12, for a
    // recognized tag.
    let mut data = size_chunk(1, 2, 3);
    data.extend_from_slice(b"trailing");
    let (c, p) = parse_chunk(&data, 0, data.len(), MAX_NESTING_DEPTH).unwrap();
    assert_eq!(p, 12 + 12);
    assert_eq!(c, Chunk::SIZE(Size { x: 1, y: 2, z: 3 }));
}

#[test]
fn framing_consumes_exactly_declared_span_unknown_tag() {
    // The same framing invariant holds for an unknown tag: 12 header
    // bytes, 5 content bytes, one 16-byte child frame.
    let child = frame(b"PACK", &le32(1), &[]);
    let data = frame(b"ZZZZ", b"hello", &child);
    let (c, p) = parse_chunk(&data, 0, data.len(), MAX_NESTING_DEPTH).unwrap();
    assert_eq!(p, 12 + 5 + 16);
    match c {
        Chunk::Unknown { kind, contents, children } => {
            assert_eq!(kind, "ZZZZ");
            assert_eq!(contents, b"hello".to_vec());
            assert_eq!(children, vec![Chunk::PACK(dotvox::Pack(1))]);
        }
        other => panic!("expected an unknown chunk, got {:?}", other),
    }
}

#[test]
fn header_too_short() {
    let data = vec![b'S', b'I', b'Z', b'E', 0, 0];
    assert_eq!(
        parse_chunk(&data, 0, data.len(), MAX_NESTING_DEPTH),
        Err(DotVoxError::Truncated { offset: 0 })
    );
}

#[test]
fn declared_content_exceeds_buffer() {
    let mut data = b"PACK".to_vec();
    data.extend(le32(100));
    data.extend(le32(0));
    data.extend(le32(1));
    assert_eq!(
        parse_chunk(&data, 0, data.len(), MAX_NESTING_DEPTH),
        Err(DotVoxError::Truncated { offset: 0 })
    );
}

#[test]
fn tag_must_be_utf8() {
    let mut data = vec![0xff, 0xfe, 0xfd, 0xfc];
    data.extend(le32(0));
    data.extend(le32(0));
    assert_eq!(
        parse_chunk(&data, 0, data.len(), MAX_NESTING_DEPTH),
        Err(DotVoxError::InvalidString { offset: 0 })
    );
}

#[test]
fn child_sequence_must_exhaust_exactly() {
    // Three stray bytes after the last child are a structural failure.
    let mut children = frame(b"PACK", &le32(1), &[]);
    children.extend_from_slice(&[1, 2, 3]);
    let data = frame(b"ZZZZ", &[], &children);
    assert_eq!(
        parse_chunk(&data, 0, data.len(), MAX_NESTING_DEPTH),
        Err(DotVoxError::Truncated { offset: 12 + 16 })
    );
}

#[test]
fn child_overrunning_its_range_fails() {
    // The child claims 8 content bytes but the children range ends
    // before they do.
    let mut child = b"PACK".to_vec();
    child.extend(le32(8));
    child.extend(le32(0));
    child.extend_from_slice(&[0, 0, 0, 0]); // only 4 of the 8 bytes
    let data = frame(b"ZZZZ", &[], &child);
    assert_eq!(
        parse_chunk(&data, 0, data.len(), MAX_NESTING_DEPTH),
        Err(DotVoxError::Truncated { offset: 12 })
    );
}

#[test]
fn semantic_failure_aborts_frame() {
    // A SIZE chunk whose payload is shorter than three 32-bit fields.
    let data = frame(b"SIZE", &le32(7), &[]);
    assert_eq!(
        parse_chunk(&data, 0, data.len(), MAX_NESTING_DEPTH),
        Err(DotVoxError::Truncated { offset: 16 })
    );
}

#[test]
fn nesting_three_levels_deep_parses() {
    let inner = frame(b"AAAA", b"x", &[]);
    let mid = frame(b"BBBB", &[], &inner);
    let outer = frame(b"CCCC", &[], &mid);
    let (c, p) = parse_chunk(&outer, 0, outer.len(), MAX_NESTING_DEPTH).unwrap();
    assert_eq!(p, outer.len());
    match c {
        Chunk::Unknown { kind, children, .. } => {
            assert_eq!(kind, "CCCC");
            assert!(matches!(&children[0], Chunk::Unknown { kind, .. } if kind == "BBBB"));
        }
        other => panic!("expected an unknown chunk, got {:?}", other),
    }
}

#[test]
fn nesting_past_depth_limit_fails() {
    let mut chunk = frame(b"AAAA", &[], &[]);
    for _ in 0..MAX_NESTING_DEPTH {
        chunk = frame(b"AAAA", &[], &chunk);
    }
    assert_eq!(
        parse_chunk(&chunk, 0, chunk.len(), MAX_NESTING_DEPTH),
        Err(DotVoxError::DepthLimitExceeded)
    );
}

#[test]
fn missing_magic() {
    let data = b"BADM\x96\x00\x00\x00".to_vec();
    assert_eq!(parse_file(&data), Err(DotVoxError::InvalidMagic));
}

#[test]
fn short_buffer_is_invalid_magic() {
    let data = b"VO".to_vec();
    assert_eq!(parse_file(&data), Err(DotVoxError::InvalidMagic));
}

#[test]
fn missing_version() {
    let data = b"VOX \x96\x00".to_vec();
    assert_eq!(parse_file(&data), Err(DotVoxError::Truncated { offset: 4 }));
}

#[test]
fn root_must_be_main_container() {
    // A well-formed root chunk with the wrong tag is the missing-root
    // failure, independent of otherwise well-formed children.
    let mut data = b"VOX ".to_vec();
    data.extend(le32(150));
    let child = frame(b"PACK", &le32(1), &[]);
    let mut content = le32(1);
    content.extend(le32(2));
    content.extend(le32(3));
    data.extend(frame(b"SIZE", &content, &child));
    assert_eq!(parse_file(&data), Err(DotVoxError::NoMainChunk));
}

#[test]
fn size_xyzi_pairing_builds_one_model() {
    // SIZE (2,3,4) + XYZI [(1,1,1,5)] pairs into one model; a second
    // unpaired XYZI yields no additional model.
    let mut children = size_chunk(2, 3, 4);
    children.extend(xyzi_chunk(&[(1, 1, 1, 5)]));
    children.extend(xyzi_chunk(&[(9, 9, 9, 9)]));
    let data = vox_file(&children);
    let f = parse_file(&data).unwrap();
    assert_eq!(f.models.len(), 1);
    assert_eq!(f.models[0].id, 0);
    assert_eq!(f.models[0].size, Size { x: 2, y: 3, z: 4 });
    assert_eq!(f.models[0].voxels, vec![Voxel { x: 1, y: 1, z: 1, i: 5 }]);
}

#[test]
fn model_ids_are_sequential() {
    let mut children = size_chunk(1, 1, 1);
    children.extend(xyzi_chunk(&[(0, 0, 0, 1)]));
    children.extend(size_chunk(2, 2, 2));
    children.extend(xyzi_chunk(&[(1, 0, 0, 2)]));
    let data = vox_file(&children);
    let f = parse_file(&data).unwrap();
    assert_eq!(f.models.len(), 2);
    assert_eq!(f.models[0].id, 0);
    assert_eq!(f.models[1].id, 1);
    assert_eq!(f.models[1].size, Size { x: 2, y: 2, z: 2 });
}

#[test]
fn later_size_overwrites_pending_size() {
    let mut children = size_chunk(7, 7, 7);
    children.extend(size_chunk(2, 2, 2));
    children.extend(xyzi_chunk(&[(0, 0, 0, 1)]));
    let data = vox_file(&children);
    let f = parse_file(&data).unwrap();
    assert_eq!(f.models.len(), 1);
    assert_eq!(f.models[0].size, Size { x: 2, y: 2, z: 2 });
}

#[test]
fn unpaired_size_is_discarded() {
    let children = size_chunk(5, 5, 5);
    let data = vox_file(&children);
    let f = parse_file(&data).unwrap();
    assert!(f.models.is_empty());
}

#[test]
fn xyzi_without_size_is_dropped() {
    let children = xyzi_chunk(&[(1, 2, 3, 4)]);
    let data = vox_file(&children);
    let f = parse_file(&data).unwrap();
    assert!(f.models.is_empty());
}

#[test]
fn rgba_replaces_palette_and_last_wins() {
    let first: Vec<u8> = std::iter::repeat([1u8, 1, 1, 1]).take(256).flatten().collect();
    let second: Vec<u8> = std::iter::repeat([2u8, 3, 4, 5]).take(256).flatten().collect();
    let mut children = frame(b"RGBA", &first, &[]);
    children.extend(frame(b"RGBA", &second, &[]));
    let data = vox_file(&children);
    let f = parse_file(&data).unwrap();
    assert_eq!(f.palette.len(), 256);
    assert_eq!((f.palette[0].r, f.palette[0].g, f.palette[0].b, f.palette[0].a), (2, 3, 4, 5));
}

#[test]
fn materials_keep_arrival_order() {
    let mut matt = le32(4);
    matt.extend(le32(0));
    matt.extend(le32(1.0f32.to_bits()));
    matt.extend(le32(0));
    let mut matl = le32(9);
    matl.extend(ledict(&[("_type", "_glass")]));
    let mut children = frame(b"MATT", &matt, &[]);
    children.extend(frame(b"MATL", &matl, &[]));
    let data = vox_file(&children);
    let f = parse_file(&data).unwrap();
    assert_eq!(f.materials.len(), 2);
    assert!(matches!(&f.materials[0], Material::V1(m) if m.id == 4));
    assert!(matches!(&f.materials[1], Material::V2(m) if m.id == 9));
}

#[test]
fn scene_graph_records_accumulate_in_order() {
    let mut ntrn = le32(0);
    ntrn.extend(ledict(&[]));
    ntrn.extend(le32(1));
    ntrn.extend((-1i32).to_le_bytes());
    ntrn.extend(le32(0));
    ntrn.extend(le32(0));
    let mut ngrp = le32(1);
    ngrp.extend(ledict(&[]));
    ngrp.extend(le32(1));
    ngrp.extend(le32(2));
    let mut nshp = le32(2);
    nshp.extend(ledict(&[]));
    nshp.extend(le32(1));
    nshp.extend(le32(0));
    nshp.extend(ledict(&[]));
    let mut layr = le32(3);
    layr.extend(ledict(&[("_name", "base")]));
    layr.extend((-1i32).to_le_bytes());
    let mut children = frame(b"nTRN", &ntrn, &[]);
    children.extend(frame(b"nGRP", &ngrp, &[]));
    children.extend(frame(b"nSHP", &nshp, &[]));
    children.extend(frame(b"LAYR", &layr, &[]));
    let data = vox_file(&children);
    let f = parse_file(&data).unwrap();
    assert_eq!(f.scenegraph.len(), 4);
    assert!(matches!(&f.scenegraph[0], SceneNode::Transform(n) if n.id == 0 && n.child_node_id == 1));
    assert!(matches!(&f.scenegraph[1], SceneNode::Group(n) if n.children == vec![2]));
    assert!(matches!(&f.scenegraph[2], SceneNode::Shape(n) if n.id == 2));
    assert!(matches!(&f.scenegraph[3], SceneNode::Layer(l) if l.id == 3 && l.reserved == -1));
}

#[test]
fn auxiliary_chunks_are_validated_but_not_folded() {
    let mut children = frame(b"PACK", &le32(1), &[]);
    children.extend(frame(b"IMAP", &vec![0u8; 256], &[]));
    let mut note = le32(1);
    note.extend(lestr("hi"));
    children.extend(frame(b"NOTE", &note, &[]));
    let data = vox_file(&children);
    let f = parse_file(&data).unwrap();
    assert!(f.models.is_empty());
    assert!(f.materials.is_empty());
    assert!(f.scenegraph.is_empty());
}

#[test]
fn malformed_auxiliary_chunk_aborts_parse() {
    let children = frame(b"IMAP", &vec![0u8; 100], &[]);
    let data = vox_file(&children);
    assert_eq!(parse_file(&data), Err(DotVoxError::Truncated { offset: 32 }));
}

#[test]
fn nested_main_is_not_folded() {
    let mut inner_children = size_chunk(1, 1, 1);
    inner_children.extend(xyzi_chunk(&[(0, 0, 0, 1)]));
    let inner_main = frame(b"MAIN", &[], &inner_children);
    let data = vox_file(&inner_main);
    let f = parse_file(&data).unwrap();
    assert!(f.models.is_empty());
}

#[test]
fn unknown_top_level_chunk_is_tolerated() {
    let mut children = frame(b"WXYZ", b"opaque", &[]);
    children.extend(size_chunk(1, 1, 1));
    children.extend(xyzi_chunk(&[(0, 0, 0, 1)]));
    let data = vox_file(&children);
    let f = parse_file(&data).unwrap();
    assert_eq!(f.models.len(), 1);
}

#[test]
fn bytes_after_root_chunk_are_ignored() {
    let mut data = vox_file(&size_chunk(1, 1, 1));
    data.extend_from_slice(b"garbage at the end");
    assert!(parse_file(&data).is_ok());
}

#[test]
fn document_version_comes_from_header() {
    let mut data = b"VOX ".to_vec();
    data.extend(le32(200));
    data.extend(frame(b"MAIN", &[], &size_chunk(1, 1, 1)));
    let f = parse_file(&data).unwrap();
    assert_eq!(f.version, 200);
}

#[test]
fn empty_main_yields_default_document() {
    let data = vox_file(&[]);
    let f = parse_file(&data).unwrap();
    assert_eq!(f.version, 150);
    assert!(f.models.is_empty());
    assert!(f.materials.is_empty());
    assert!(f.scenegraph.is_empty());
    assert_eq!(f.palette.len(), 256);
    // The default palette: entry 0 transparent black, entry 1 opaque
    // white.
    assert_eq!((f.palette[0].r, f.palette[0].g, f.palette[0].b, f.palette[0].a), (0, 0, 0, 0));
    assert_eq!(
        (f.palette[1].r, f.palette[1].g, f.palette[1].b, f.palette[1].a),
        (255, 255, 255, 255)
    );
}
