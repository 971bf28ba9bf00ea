//! Tests for the document model types, the default palette and the
//! dictionary encoder round trip.

use dotvox::primitives::parse_DICT;
use dotvox::roundtrip::encode_DICT;
use dotvox::types::default_palette;
use dotvox::{Color, Rotation, VoxFile};

#[test]
fn color_from_u32_unpacks_channels() {
    let c = Color::from_u32(0x11223344);
    assert_eq!((c.r, c.g, c.b, c.a), (0x11, 0x22, 0x33, 0x44));
    assert!(c.name.is_none());
}

#[test]
fn color_from_u32_extremes() {
    let c = Color::from_u32(0xff000000);
    assert_eq!((c.r, c.g, c.b, c.a), (0xff, 0, 0, 0));
    let c = Color::from_u32(0x000000ff);
    assert_eq!((c.r, c.g, c.b, c.a), (0, 0, 0, 0xff));
}

#[test]
fn rotation_identity_matrix() {
    // Row 0 has its unit in column 0, row 1 in column 1, all positive.
    let r = Rotation(0b0000_0100);
    let m = r.to_matrix();
    assert_eq!(m, [[1, 0, 0], [0, 1, 0], [0, 0, 1]]);
}

#[test]
fn rotation_packed_example() {
    // (1 << 0) | (2 << 2) | (1 << 5) | (1 << 6): row 0 unit in column 1,
    // row 1 in column 2 negated, row 2 in column 0 negated.
    let r = Rotation((1 << 0) | (2 << 2) | (1 << 5) | (1 << 6));
    let m = r.to_matrix();
    assert_eq!(m, [[0, 1, 0], [0, 0, -1], [-1, 0, 0]]);
}

#[test]
fn rotation_all_negative_signs() {
    let r = Rotation((2 << 0) | (0 << 2) | (1 << 4) | (1 << 5) | (1 << 6));
    let m = r.to_matrix();
    assert_eq!(m, [[0, 0, -1], [-1, 0, 0], [0, -1, 0]]);
}

#[test]
fn default_palette_has_256_entries() {
    let p = default_palette();
    assert_eq!(p.len(), 256);
}

#[test]
fn default_palette_spot_values() {
    let p = default_palette();
    let rgba = |c: &Color| (c.r, c.g, c.b, c.a);
    assert_eq!(rgba(&p[0]), (0x00, 0x00, 0x00, 0x00));
    assert_eq!(rgba(&p[1]), (0xff, 0xff, 0xff, 0xff));
    assert_eq!(rgba(&p[2]), (0xff, 0xcc, 0xff, 0xff));
    assert_eq!(rgba(&p[7]), (0xff, 0xff, 0xcc, 0xff));
    assert_eq!(rgba(&p[37]), (0xff, 0xff, 0xff, 0xcc));
    assert_eq!(rgba(&p[215]), (0xff, 0x33, 0x00, 0x00));
    assert_eq!(rgba(&p[216]), (0xff, 0x00, 0x00, 0xee));
    assert_eq!(rgba(&p[226]), (0xff, 0x00, 0xee, 0x00));
    assert_eq!(rgba(&p[236]), (0xff, 0xee, 0x00, 0x00));
    assert_eq!(rgba(&p[246]), (0xff, 0xee, 0xee, 0xee));
    assert_eq!(rgba(&p[255]), (0xff, 0x11, 0x11, 0x11));
}

#[test]
fn default_document() {
    let f = VoxFile::default();
    assert_eq!(f.version, 150);
    assert!(f.models.is_empty());
    assert!(f.materials.is_empty());
    assert!(f.scenegraph.is_empty());
    assert_eq!(f.palette.len(), 256);
}

#[test]
fn dict_round_trip_two_entries() {
    // Encoding then decoding a 2-entry dictionary preserves both the
    // key order and the exact string content.
    let d = vec![
        ("zebra".to_string(), "first".to_string()),
        ("ant".to_string(), "secönd ✓".to_string()),
    ];
    let bytes = encode_DICT(&d).unwrap();
    let (decoded, consumed) = parse_DICT(&bytes, 0, bytes.len()).unwrap();
    assert_eq!(consumed, bytes.len());
    assert_eq!(decoded, d);
}

#[test]
fn dict_round_trip_empty() {
    let d: Vec<(String, String)> = Vec::new();
    let bytes = encode_DICT(&d).unwrap();
    assert_eq!(bytes, vec![0, 0, 0, 0]);
    let (decoded, consumed) = parse_DICT(&bytes, 0, bytes.len()).unwrap();
    assert_eq!(consumed, 4);
    assert!(decoded.is_empty());
}

#[test]
fn encoded_dict_layout_is_count_then_pairs() {
    let d = vec![("k".to_string(), "v".to_string())];
    let bytes = encode_DICT(&d).unwrap();
    let mut expected = 1u32.to_le_bytes().to_vec();
    expected.extend(1u32.to_le_bytes());
    expected.extend(b"k");
    expected.extend(1u32.to_le_bytes());
    expected.extend(b"v");
    assert_eq!(bytes, expected);
}
