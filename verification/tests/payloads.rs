//! Tests for the primitive readers and the per-tag payload decoders.

use dotvox::chunks::{
    parse_IMAP, parse_LAYR, parse_MATL, parse_MATT, parse_NOTE, parse_PACK, parse_RGBA, parse_SIZE,
    parse_XYZI, parse_nGRP, parse_nSHP, parse_nTRN, parse_rCAM, parse_rOBJ,
};
use dotvox::primitives::{parse_DICT, parse_STRING, parse_i32, parse_u32};
use dotvox::{DotVoxError, Size, Voxel};

fn le32(v: u32) -> Vec<u8> {
    v.to_le_bytes().to_vec()
}

fn lestr(s: &str) -> Vec<u8> {
    let mut out = le32(s.len() as u32);
    out.extend_from_slice(s.as_bytes());
    out
}

fn ledict(entries: &[(&str, &str)]) -> Vec<u8> {
    let mut out = le32(entries.len() as u32);
    for (k, v) in entries {
        out.extend(lestr(k));
        out.extend(lestr(v));
    }
    out
}

#[test]
fn u32_little_endian() {
    let data = vec![0x44u8, 0x33, 0x22, 0x11];
    let (v, p) = parse_u32(&data, 0, 4).unwrap();
    assert_eq!(v, 0x11223344);
    assert_eq!(p, 4);
}

#[test]
fn u32_truncated() {
    let data = vec![1u8, 2, 3];
    assert_eq!(parse_u32(&data, 0, 3), Err(DotVoxError::Truncated { offset: 0 }));
}

#[test]
fn i32_negative_one() {
    let data = vec![0xffu8, 0xff, 0xff, 0xff];
    let (v, _) = parse_i32(&data, 0, 4).unwrap();
    assert_eq!(v, -1);
}

#[test]
fn string_ascii() {
    let data = lestr("hello");
    let (s, p) = parse_STRING(&data, 0, data.len()).unwrap();
    assert_eq!(s, "hello");
    assert_eq!(p, 9);
}

#[test]
fn string_multibyte_utf8() {
    let data = lestr("héllo✓");
    let (s, p) = parse_STRING(&data, 0, data.len()).unwrap();
    assert_eq!(s, "héllo✓");
    assert_eq!(p, data.len());
}

#[test]
fn string_declared_length_exceeds_buffer() {
    // A declared byte length past the end of the buffer must fail with a
    // truncation error, never panic or read out of bounds.
    let mut data = le32(10);
    data.extend_from_slice(b"abc");
    assert_eq!(parse_STRING(&data, 0, data.len()), Err(DotVoxError::Truncated { offset: 4 }));
}

#[test]
fn string_invalid_utf8() {
    let mut data = le32(2);
    data.extend_from_slice(&[0xff, 0xfe]);
    assert_eq!(parse_STRING(&data, 0, data.len()), Err(DotVoxError::InvalidString { offset: 0 }));
}

#[test]
fn dict_empty() {
    let data = le32(0);
    let (d, p) = parse_DICT(&data, 0, 4).unwrap();
    assert!(d.is_empty());
    assert_eq!(p, 4);
}

#[test]
fn dict_keeps_insertion_order() {
    let data = ledict(&[("zeta", "1"), ("alpha", "2"), ("zeta2", "3")]);
    let (d, p) = parse_DICT(&data, 0, data.len()).unwrap();
    assert_eq!(p, data.len());
    assert_eq!(
        d,
        vec![
            ("zeta".to_string(), "1".to_string()),
            ("alpha".to_string(), "2".to_string()),
            ("zeta2".to_string(), "3".to_string()),
        ]
    );
}

#[test]
fn dict_truncated_value() {
    let mut data = le32(1);
    data.extend(lestr("key"));
    data.extend(le32(4));
    data.extend_from_slice(b"va");
    assert_eq!(
        parse_DICT(&data, 0, data.len()),
        Err(DotVoxError::Truncated { offset: data.len() - 2 })
    );
}

#[test]
fn pack_payload() {
    let data = le32(3);
    let (p, _) = parse_PACK(&data, 0, 4).unwrap();
    assert_eq!(p.0, 3);
}

#[test]
fn size_payload() {
    let mut data = le32(2);
    data.extend(le32(3));
    data.extend(le32(4));
    let (s, p) = parse_SIZE(&data, 0, 12).unwrap();
    assert_eq!(s, Size { x: 2, y: 3, z: 4 });
    assert_eq!(p, 12);
}

#[test]
fn xyzi_payload() {
    let mut data = le32(2);
    data.extend_from_slice(&[1, 2, 3, 4]);
    data.extend_from_slice(&[5, 6, 7, 8]);
    let (vs, p) = parse_XYZI(&data, 0, data.len()).unwrap();
    assert_eq!(p, 12);
    assert_eq!(vs, vec![Voxel { x: 1, y: 2, z: 3, i: 4 }, Voxel { x: 5, y: 6, z: 7, i: 8 }]);
}

#[test]
fn xyzi_count_zero() {
    let data = le32(0);
    let (vs, p) = parse_XYZI(&data, 0, 4).unwrap();
    assert!(vs.is_empty());
    assert_eq!(p, 4);
}

#[test]
fn xyzi_truncated_records() {
    let mut data = le32(2);
    data.extend_from_slice(&[1, 2, 3, 4]);
    assert_eq!(parse_XYZI(&data, 0, data.len()), Err(DotVoxError::Truncated { offset: 4 }));
}

#[test]
fn rgba_all_zero_yields_transparent_black() {
    // 256 all-zero records decode to 256 transparent-black entries, in
    // input order.
    let data = vec![0u8; 1024];
    let (colors, p) = parse_RGBA(&data, 0, 1024).unwrap();
    assert_eq!(p, 1024);
    assert_eq!(colors.len(), 256);
    for c in &colors {
        assert_eq!((c.r, c.g, c.b, c.a), (0, 0, 0, 0));
        assert!(c.name.is_none());
    }
}

#[test]
fn rgba_keeps_input_order() {
    let mut data = Vec::new();
    for i in 0..256u32 {
        data.extend_from_slice(&[i as u8, 1, 2, 3]);
    }
    let (colors, _) = parse_RGBA(&data, 0, data.len()).unwrap();
    assert_eq!(colors[7].r, 7);
    assert_eq!(colors[255].r, 255);
    assert_eq!((colors[9].g, colors[9].b, colors[9].a), (1, 2, 3));
}

#[test]
fn rgba_short_payload() {
    let data = vec![0u8; 1000];
    assert_eq!(parse_RGBA(&data, 0, 1000), Err(DotVoxError::Truncated { offset: 0 }));
}

#[test]
fn imap_payload() {
    let data: Vec<u8> = (0..=255u8).collect();
    let (t, p) = parse_IMAP(&data, 0, 256).unwrap();
    assert_eq!(p, 256);
    assert_eq!(t, data);
}

#[test]
fn imap_short_payload() {
    let data = vec![0u8; 100];
    assert_eq!(parse_IMAP(&data, 0, 100), Err(DotVoxError::Truncated { offset: 0 }));
}

#[test]
fn matt_bitmask_0x05() {
    // Bits 0 and 2 set: plastic and specular present, everything else
    // absent, total-power flag clear.
    let mut data = le32(7); // id
    data.extend(le32(1)); // kind
    data.extend(le32(1.0f32.to_bits())); // weight
    data.extend(le32(0x05)); // bitmask
    data.extend(le32(0.5f32.to_bits())); // plastic
    data.extend(le32(0.25f32.to_bits())); // specular
    let (m, p) = parse_MATT(&data, 0, data.len()).unwrap();
    assert_eq!(p, data.len());
    assert_eq!(m.id, 7);
    assert_eq!(m.kind, 1);
    assert_eq!(m.weight, 1.0f32.to_bits());
    assert_eq!(m.plastic, Some(0.5f32.to_bits()));
    assert_eq!(m.specular, Some(0.25f32.to_bits()));
    assert_eq!(m.roughness, None);
    assert_eq!(m.ior, None);
    assert_eq!(m.attenuation, None);
    assert_eq!(m.power, None);
    assert_eq!(m.glow, None);
    assert!(!m.is_total_power);
}

#[test]
fn matt_all_fields_and_total_power() {
    let mut data = le32(1);
    data.extend(le32(2));
    data.extend(le32(0.75f32.to_bits()));
    data.extend(le32(0xff));
    for i in 0..7u32 {
        data.extend(le32((i as f32).to_bits()));
    }
    let (m, p) = parse_MATT(&data, 0, data.len()).unwrap();
    assert_eq!(p, data.len());
    assert_eq!(m.plastic, Some(0.0f32.to_bits()));
    assert_eq!(m.roughness, Some(1.0f32.to_bits()));
    assert_eq!(m.specular, Some(2.0f32.to_bits()));
    assert_eq!(m.ior, Some(3.0f32.to_bits()));
    assert_eq!(m.attenuation, Some(4.0f32.to_bits()));
    assert_eq!(m.power, Some(5.0f32.to_bits()));
    assert_eq!(m.glow, Some(6.0f32.to_bits()));
    assert!(m.is_total_power);
}

#[test]
fn matt_missing_gated_field() {
    let mut data = le32(1);
    data.extend(le32(0));
    data.extend(le32(0));
    data.extend(le32(0x01)); // plastic gated on but no bytes follow
    assert_eq!(parse_MATT(&data, 0, data.len()), Err(DotVoxError::Truncated { offset: 16 }));
}

#[test]
fn matl_payload() {
    let mut data = le32(42);
    data.extend(ledict(&[("_type", "_metal"), ("_weight", "0.5")]));
    let (m, p) = parse_MATL(&data, 0, data.len()).unwrap();
    assert_eq!(p, data.len());
    assert_eq!(m.id, 42);
    assert_eq!(m.properties[0], ("_type".to_string(), "_metal".to_string()));
    assert_eq!(m.properties[1], ("_weight".to_string(), "0.5".to_string()));
}

#[test]
fn robj_payload() {
    let data = ledict(&[("_sun", "1")]);
    let (d, _) = parse_rOBJ(&data, 0, data.len()).unwrap();
    assert_eq!(d, vec![("_sun".to_string(), "1".to_string())]);
}

#[test]
fn rcam_payload() {
    let mut data = le32(9);
    data.extend(ledict(&[("_mode", "pers")]));
    let (c, _) = parse_rCAM(&data, 0, data.len()).unwrap();
    assert_eq!(c.id, 9);
    assert_eq!(c.attributes, vec![("_mode".to_string(), "pers".to_string())]);
}

#[test]
fn note_payload() {
    let mut data = le32(2);
    data.extend(lestr("first"));
    data.extend(lestr("second"));
    let (notes, p) = parse_NOTE(&data, 0, data.len()).unwrap();
    assert_eq!(p, data.len());
    assert_eq!(notes, vec!["first".to_string(), "second".to_string()]);
}

#[test]
fn ntrn_payload() {
    let mut data = le32(3); // id
    data.extend(ledict(&[("_name", "node")]));
    data.extend(le32(4)); // child node id
    data.extend((-1i32).to_le_bytes()); // reserved
    data.extend(le32(0)); // layer id
    data.extend(le32(2)); // frame count
    data.extend(ledict(&[("_t", "0 0 1")]));
    data.extend(ledict(&[("_t", "0 0 2")]));
    let (n, p) = parse_nTRN(&data, 0, data.len()).unwrap();
    assert_eq!(p, data.len());
    assert_eq!(n.id, 3);
    assert_eq!(n.attrib, vec![("_name".to_string(), "node".to_string())]);
    assert_eq!(n.child_node_id, 4);
    assert_eq!(n.reserved_id, -1);
    assert_eq!(n.layer_id, 0);
    assert_eq!(n.frames.len(), 2);
    assert_eq!(n.frames[1], vec![("_t".to_string(), "0 0 2".to_string())]);
}

#[test]
fn ngrp_payload() {
    let mut data = le32(1);
    data.extend(ledict(&[]));
    data.extend(le32(3));
    data.extend(le32(10));
    data.extend(le32(11));
    data.extend(le32(12));
    let (g, p) = parse_nGRP(&data, 0, data.len()).unwrap();
    assert_eq!(p, data.len());
    assert_eq!(g.id, 1);
    assert!(g.attrib.is_empty());
    assert_eq!(g.children, vec![10, 11, 12]);
}

#[test]
fn nshp_payload() {
    let mut data = le32(5);
    data.extend(ledict(&[]));
    data.extend(le32(1));
    data.extend(le32(0)); // model id
    data.extend(ledict(&[("_f", "0")]));
    let (sh, p) = parse_nSHP(&data, 0, data.len()).unwrap();
    assert_eq!(p, data.len());
    assert_eq!(sh.id, 5);
    assert_eq!(sh.models.len(), 1);
    assert_eq!(sh.models[0].0, 0);
    assert_eq!(sh.models[0].1, vec![("_f".to_string(), "0".to_string())]);
}

#[test]
fn layr_payload() {
    let mut data = le32(2);
    data.extend(ledict(&[("_name", "ground")]));
    data.extend((-1i32).to_le_bytes());
    let (l, p) = parse_LAYR(&data, 0, data.len()).unwrap();
    assert_eq!(p, data.len());
    assert_eq!(l.id, 2);
    assert_eq!(l.attributes, vec![("_name".to_string(), "ground".to_string())]);
    assert_eq!(l.reserved, -1);
}

#[test]
fn trailing_bytes_in_payload_slice_are_ignored() {
    let mut data = le32(1);
    data.extend_from_slice(b"extra trailing bytes");
    let (p, pos) = parse_PACK(&data, 0, data.len()).unwrap();
    assert_eq!(p.0, 1);
    assert_eq!(pos, 4);
}
