//! Semantic decoders, one per recognized chunk tag.
//!
//! Each decoder consumes a payload slice `data[pos..end]` that the frame
//! reader has already cut to the chunk's exact content length.  Trailing
//! unconsumed bytes inside that slice are permitted and ignored; reading
//! past `end` is a truncation failure.

#![allow(non_snake_case)]

use crate::error::DotVoxError;
use crate::primitives::{
    copy_range, parse_DICT, parse_STRING, parse_i32, parse_u32, spec_parse_dict, spec_parse_i32,
    spec_parse_string, spec_parse_u32, spec_u32_at,
};
use crate::types::{
    Camera, CameraView, Color, Dict, DictView, GroupNode, GroupNodeView, Layer, LayerView,
    MaterialV1, MaterialV2, MaterialV2View, Pack, ShapeNode, ShapeNodeView, Size, TransformNode,
    TransformNodeView, Voxel,
};
use vstd::prelude::*;

verus! {

/// The voxel record (x, y, z, palette index) stored at `pos`.
pub open spec fn spec_voxel_at(s: Seq<u8>, pos: int) -> Voxel
    recommends
        0 <= pos && pos + 4 <= s.len(),
{
    Voxel { x: s[pos], y: s[pos + 1], z: s[pos + 2], i: s[pos + 3] }
}

/// The color record (r, g, b, a) stored at `pos`.
pub open spec fn spec_color_at(s: Seq<u8>, pos: int) -> Color
    recommends
        0 <= pos && pos + 4 <= s.len(),
{
    Color { name: None, r: s[pos], g: s[pos + 1], b: s[pos + 2], a: s[pos + 3] }
}

/// A `PACK` payload: one 32-bit model count.
pub open spec fn spec_parse_PACK(s: Seq<u8>, pos: int, end: int) -> Result<
    (Pack, int),
    DotVoxError,
> {
    match spec_parse_u32(s, pos, end) {
        Ok((n, p)) => Ok((Pack(n), p)),
        Err(e) => Err(e),
    }
}

/// A `SIZE` payload: width, height and depth, each 32 bits.
pub open spec fn spec_parse_SIZE(s: Seq<u8>, pos: int, end: int) -> Result<
    (Size, int),
    DotVoxError,
> {
    match spec_parse_u32(s, pos, end) {
        Err(e) => Err(e),
        Ok((x, p1)) => match spec_parse_u32(s, p1, end) {
            Err(e) => Err(e),
            Ok((y, p2)) => match spec_parse_u32(s, p2, end) {
                Err(e) => Err(e),
                Ok((z, p3)) => Ok((Size { x, y, z }, p3)),
            },
        },
    }
}

/// An `XYZI` payload: a 32-bit voxel count, then that many 4-byte
/// (x, y, z, palette index) records.
pub open spec fn spec_parse_XYZI(s: Seq<u8>, pos: int, end: int) -> Result<
    (Seq<Voxel>, int),
    DotVoxError,
> {
    match spec_parse_u32(s, pos, end) {
        Err(e) => Err(e),
        Ok((n, p)) => {
            if p + 4 * (n as int) > end {
                Err(DotVoxError::Truncated { offset: p as usize })
            } else {
                Ok((Seq::new(n as nat, |k: int| spec_voxel_at(s, p + 4 * k)), p + 4 * (n as int)))
            }
        },
    }
}

/// An `RGBA` payload: exactly 256 4-byte (r, g, b, a) records, in input
/// order.
pub open spec fn spec_parse_RGBA(s: Seq<u8>, pos: int, end: int) -> Result<
    (Seq<Color>, int),
    DotVoxError,
> {
    if pos + 1024 > end {
        Err(DotVoxError::Truncated { offset: pos as usize })
    } else {
        Ok((Seq::new(256, |k: int| spec_color_at(s, pos + 4 * k)), pos + 1024))
    }
}

/// An `IMAP` payload: exactly 256 raw bytes.
pub open spec fn spec_parse_IMAP(s: Seq<u8>, pos: int, end: int) -> Result<
    (Seq<u8>, int),
    DotVoxError,
> {
    if pos + 256 > end {
        Err(DotVoxError::Truncated { offset: pos as usize })
    } else {
        Ok((s.subrange(pos, pos + 256), pos + 256))
    }
}

/// One bitmask-gated optional 32-bit field of a `MATT` payload: present
/// fields consume four bytes, absent fields consume none.
pub open spec fn spec_parse_opt_field(s: Seq<u8>, pos: int, end: int, present: bool) -> Result<
    (Option<u32>, int),
    DotVoxError,
> {
    if present {
        match spec_parse_u32(s, pos, end) {
            Ok((v, p)) => Ok((Some(v), p)),
            Err(e) => Err(e),
        }
    } else {
        Ok((None, pos))
    }
}

/// A `MATT` payload: id, kind, weight, a property bitmask, then one
/// optional 32-bit float field (kept as raw bits) for each of bits 0-6 of
/// the mask, in fixed order; bit 7 is the boolean total-power flag and
/// consumes no bytes.
pub open spec fn spec_parse_MATT(s: Seq<u8>, pos: int, end: int) -> Result<
    (MaterialV1, int),
    DotVoxError,
> {
    match spec_parse_u32(s, pos, end) {
        Err(e) => Err(e),
        Ok((id, p1)) => match spec_parse_u32(s, p1, end) {
            Err(e) => Err(e),
            Ok((kind, p2)) => match spec_parse_u32(s, p2, end) {
                Err(e) => Err(e),
                Ok((weight, p3)) => match spec_parse_u32(s, p3, end) {
                    Err(e) => Err(e),
                    Ok((bits, p4)) => match spec_parse_opt_field(s, p4, end, bits & 0x01 != 0) {
                        Err(e) => Err(e),
                        Ok((plastic, p5)) => match spec_parse_opt_field(
                            s,
                            p5,
                            end,
                            bits & 0x02 != 0,
                        ) {
                            Err(e) => Err(e),
                            Ok((roughness, p6)) => match spec_parse_opt_field(
                                s,
                                p6,
                                end,
                                bits & 0x04 != 0,
                            ) {
                                Err(e) => Err(e),
                                Ok((specular, p7)) => match spec_parse_opt_field(
                                    s,
                                    p7,
                                    end,
                                    bits & 0x08 != 0,
                                ) {
                                    Err(e) => Err(e),
                                    Ok((ior, p8)) => match spec_parse_opt_field(
                                        s,
                                        p8,
                                        end,
                                        bits & 0x10 != 0,
                                    ) {
                                        Err(e) => Err(e),
                                        Ok((attenuation, p9)) => match spec_parse_opt_field(
                                            s,
                                            p9,
                                            end,
                                            bits & 0x20 != 0,
                                        ) {
                                            Err(e) => Err(e),
                                            Ok((power, p10)) => match spec_parse_opt_field(
                                                s,
                                                p10,
                                                end,
                                                bits & 0x40 != 0,
                                            ) {
                                                Err(e) => Err(e),
                                                Ok((glow, p11)) => Ok((
                                                    MaterialV1 {
                                                        id,
                                                        kind,
                                                        weight,
                                                        plastic,
                                                        roughness,
                                                        specular,
                                                        ior,
                                                        attenuation,
                                                        power,
                                                        glow,
                                                        is_total_power: bits & 0x80 != 0,
                                                    },
                                                    p11,
                                                )),
                                            },
                                        },
                                    },
                                },
                            },
                        },
                    },
                },
            },
        },
    }
}

/// A `MATL` payload: id, then a dictionary of properties.
pub open spec fn spec_parse_MATL(s: Seq<u8>, pos: int, end: int) -> Result<
    (MaterialV2View, int),
    DotVoxError,
> {
    match spec_parse_u32(s, pos, end) {
        Err(e) => Err(e),
        Ok((id, p1)) => match spec_parse_dict(s, p1, end) {
            Err(e) => Err(e),
            Ok((properties, p2)) => Ok((MaterialV2View { id, properties }, p2)),
        },
    }
}

/// An `rOBJ` payload: a bare dictionary.
pub open spec fn spec_parse_rOBJ(s: Seq<u8>, pos: int, end: int) -> Result<
    (DictView, int),
    DotVoxError,
> {
    spec_parse_dict(s, pos, end)
}

/// An `rCAM` payload: id, then a dictionary of attributes.
pub open spec fn spec_parse_rCAM(s: Seq<u8>, pos: int, end: int) -> Result<
    (CameraView, int),
    DotVoxError,
> {
    match spec_parse_u32(s, pos, end) {
        Err(e) => Err(e),
        Ok((id, p1)) => match spec_parse_dict(s, p1, end) {
            Err(e) => Err(e),
            Ok((attributes, p2)) => Ok((CameraView { id, attributes }, p2)),
        },
    }
}

/// `n` consecutive length-prefixed strings.
pub open spec fn spec_parse_strings(s: Seq<u8>, pos: int, end: int, n: nat) -> Result<
    (Seq<Seq<char>>, int),
    DotVoxError,
>
    decreases n,
{
    if n == 0 {
        Ok((Seq::empty(), pos))
    } else {
        match spec_parse_string(s, pos, end) {
            Err(e) => Err(e),
            Ok((v, p1)) => match spec_parse_strings(s, p1, end, (n - 1) as nat) {
                Err(e) => Err(e),
                Ok((rest, p2)) => Ok((seq![v] + rest, p2)),
            },
        }
    }
}

/// A `NOTE` payload: a 32-bit string count, then that many
/// length-prefixed strings.
pub open spec fn spec_parse_NOTE(s: Seq<u8>, pos: int, end: int) -> Result<
    (Seq<Seq<char>>, int),
    DotVoxError,
> {
    match spec_parse_u32(s, pos, end) {
        Err(e) => Err(e),
        Ok((n, p)) => spec_parse_strings(s, p, end, n as nat),
    }
}

/// `n` consecutive dictionaries.
pub open spec fn spec_parse_dicts(s: Seq<u8>, pos: int, end: int, n: nat) -> Result<
    (Seq<DictView>, int),
    DotVoxError,
>
    decreases n,
{
    if n == 0 {
        Ok((Seq::empty(), pos))
    } else {
        match spec_parse_dict(s, pos, end) {
            Err(e) => Err(e),
            Ok((d, p1)) => match spec_parse_dicts(s, p1, end, (n - 1) as nat) {
                Err(e) => Err(e),
                Ok((rest, p2)) => Ok((seq![d] + rest, p2)),
            },
        }
    }
}

/// An `nTRN` payload: id, attributes, child node id, a reserved field
/// (`-1` means none), layer id, a frame count, then one attribute
/// dictionary per animation frame.
pub open spec fn spec_parse_nTRN(s: Seq<u8>, pos: int, end: int) -> Result<
    (TransformNodeView, int),
    DotVoxError,
> {
    match spec_parse_u32(s, pos, end) {
        Err(e) => Err(e),
        Ok((id, p1)) => match spec_parse_dict(s, p1, end) {
            Err(e) => Err(e),
            Ok((attrib, p2)) => match spec_parse_u32(s, p2, end) {
                Err(e) => Err(e),
                Ok((child_node_id, p3)) => match spec_parse_i32(s, p3, end) {
                    Err(e) => Err(e),
                    Ok((reserved_id, p4)) => match spec_parse_u32(s, p4, end) {
                        Err(e) => Err(e),
                        Ok((layer_id, p5)) => match spec_parse_u32(s, p5, end) {
                            Err(e) => Err(e),
                            Ok((n, p6)) => match spec_parse_dicts(s, p6, end, n as nat) {
                                Err(e) => Err(e),
                                Ok((frames, p7)) => Ok((
                                    TransformNodeView {
                                        id,
                                        attrib,
                                        child_node_id,
                                        reserved_id,
                                        layer_id,
                                        frames,
                                    },
                                    p7,
                                )),
                            },
                        },
                    },
                },
            },
        },
    }
}

/// An `nGRP` payload: id, attributes, a child count, then that many
/// 32-bit child node ids.
pub open spec fn spec_parse_nGRP(s: Seq<u8>, pos: int, end: int) -> Result<
    (GroupNodeView, int),
    DotVoxError,
> {
    match spec_parse_u32(s, pos, end) {
        Err(e) => Err(e),
        Ok((id, p1)) => match spec_parse_dict(s, p1, end) {
            Err(e) => Err(e),
            Ok((attrib, p2)) => match spec_parse_u32(s, p2, end) {
                Err(e) => Err(e),
                Ok((n, p3)) => {
                    if p3 + 4 * (n as int) > end {
                        Err(DotVoxError::Truncated { offset: p3 as usize })
                    } else {
                        Ok((
                            GroupNodeView {
                                id,
                                attrib,
                                children: Seq::new(n as nat, |k: int| spec_u32_at(s, p3 + 4 * k)),
                            },
                            p3 + 4 * (n as int),
                        ))
                    }
                },
            },
        },
    }
}

/// `n` consecutive (model id, attribute dictionary) pairs.
pub open spec fn spec_parse_shape_models(s: Seq<u8>, pos: int, end: int, n: nat) -> Result<
    (Seq<(u32, DictView)>, int),
    DotVoxError,
>
    decreases n,
{
    if n == 0 {
        Ok((Seq::empty(), pos))
    } else {
        match spec_parse_u32(s, pos, end) {
            Err(e) => Err(e),
            Ok((id, p1)) => match spec_parse_dict(s, p1, end) {
                Err(e) => Err(e),
                Ok((d, p2)) => match spec_parse_shape_models(s, p2, end, (n - 1) as nat) {
                    Err(e) => Err(e),
                    Ok((rest, p3)) => Ok((seq![(id, d)] + rest, p3)),
                },
            },
        }
    }
}

/// An `nSHP` payload: id, attributes, a model-instance count, then that
/// many (model id, attributes) pairs.
pub open spec fn spec_parse_nSHP(s: Seq<u8>, pos: int, end: int) -> Result<
    (ShapeNodeView, int),
    DotVoxError,
> {
    match spec_parse_u32(s, pos, end) {
        Err(e) => Err(e),
        Ok((id, p1)) => match spec_parse_dict(s, p1, end) {
            Err(e) => Err(e),
            Ok((attrib, p2)) => match spec_parse_u32(s, p2, end) {
                Err(e) => Err(e),
                Ok((n, p3)) => match spec_parse_shape_models(s, p3, end, n as nat) {
                    Err(e) => Err(e),
                    Ok((models, p4)) => Ok((ShapeNodeView { id, attrib, models }, p4)),
                },
            },
        },
    }
}

/// A `LAYR` payload: id, attributes, then a reserved 32-bit signed field.
pub open spec fn spec_parse_LAYR(s: Seq<u8>, pos: int, end: int) -> Result<
    (LayerView, int),
    DotVoxError,
> {
    match spec_parse_u32(s, pos, end) {
        Err(e) => Err(e),
        Ok((id, p1)) => match spec_parse_dict(s, p1, end) {
            Err(e) => Err(e),
            Ok((attributes, p2)) => match spec_parse_i32(s, p2, end) {
                Err(e) => Err(e),
                Ok((reserved, p3)) => Ok((LayerView { id, attributes, reserved }, p3)),
            },
        },
    }
}

/// Decodes a `PACK` payload.
pub fn parse_PACK(data: &Vec<u8>, pos: usize, end: usize) -> (r: Result<
    (Pack, usize),
    DotVoxError,
>)
    requires
        pos <= end <= data.len(),
    ensures
        (match r {
            Ok((v, p)) => spec_parse_PACK(data@, pos as int, end as int) == Ok::<
                (Pack, int),
                DotVoxError,
            >((v, p as int)) && pos <= p <= end,
            Err(e) => spec_parse_PACK(data@, pos as int, end as int) == Err::<
                (Pack, int),
                DotVoxError,
            >(e),
        }),
{
    match parse_u32(data, pos, end) {
        Ok((n, p)) => Ok((Pack(n), p)),
        Err(e) => Err(e),
    }
}

/// Decodes a `SIZE` payload.
pub fn parse_SIZE(data: &Vec<u8>, pos: usize, end: usize) -> (r: Result<
    (Size, usize),
    DotVoxError,
>)
    requires
        pos <= end <= data.len(),
    ensures
        (match r {
            Ok((v, p)) => spec_parse_SIZE(data@, pos as int, end as int) == Ok::<
                (Size, int),
                DotVoxError,
            >((v, p as int)) && pos <= p <= end,
            Err(e) => spec_parse_SIZE(data@, pos as int, end as int) == Err::<
                (Size, int),
                DotVoxError,
            >(e),
        }),
{
    let x = match parse_u32(data, pos, end) {
        Ok(v) => v,
        Err(e) => {
            return Err(e);
        },
    };
    let y = match parse_u32(data, x.1, end) {
        Ok(v) => v,
        Err(e) => {
            return Err(e);
        },
    };
    let z = match parse_u32(data, y.1, end) {
        Ok(v) => v,
        Err(e) => {
            return Err(e);
        },
    };
    Ok((Size { x: x.0, y: y.0, z: z.0 }, z.1))
}

/// Decodes an `XYZI` payload.
pub fn parse_XYZI(data: &Vec<u8>, pos: usize, end: usize) -> (r: Result<
    (Vec<Voxel>, usize),
    DotVoxError,
>)
    requires
        pos <= end <= data.len(),
    ensures
        (match r {
            Ok((v, p)) => spec_parse_XYZI(data@, pos as int, end as int) == Ok::<
                (Seq<Voxel>, int),
                DotVoxError,
            >((v.deep_view(), p as int)) && pos <= p <= end,
            Err(e) => spec_parse_XYZI(data@, pos as int, end as int) == Err::<
                (Seq<Voxel>, int),
                DotVoxError,
            >(e),
        }),
{
    let nr = match parse_u32(data, pos, end) {
        Ok(v) => v,
        Err(e) => {
            return Err(e);
        },
    };
    let n = nr.0 as usize;
    let p = nr.1;
    if n > (end - p) / 4 {
        proof {
            assert(p as int + 4 * (nr.0 as int) > end as int);
        }
        return Err(DotVoxError::Truncated { offset: p });
    }
    proof {
        assert(p as int + 4 * (nr.0 as int) <= end as int);
    }
    let mut voxels: Vec<Voxel> = Vec::new();
    let mut k: usize = 0;
    while k < n
        invariant
            k <= n,
            p + 4 * n <= end <= data.len(),
            voxels.len() == k,
            forall|j: int| 0 <= j < k ==> voxels[j] == spec_voxel_at(data@, p + 4 * j),
        decreases n - k,
    {
        let base = p + 4 * k;
        voxels.push(
            Voxel { x: data[base], y: data[base + 1], z: data[base + 2], i: data[base + 3] },
        );
        k = k + 1;
    }
    proof {
        assert(voxels.deep_view() =~= Seq::new(
            nr.0 as nat,
            |j: int| spec_voxel_at(data@, nr.1 as int + 4 * j),
        ));
    }
    Ok((voxels, p + 4 * n))
}

/// Decodes an `RGBA` payload.
pub fn parse_RGBA(data: &Vec<u8>, pos: usize, end: usize) -> (r: Result<
    (Vec<Color>, usize),
    DotVoxError,
>)
    requires
        pos <= end <= data.len(),
    ensures
        (match r {
            Ok((v, p)) => spec_parse_RGBA(data@, pos as int, end as int) == Ok::<
                (Seq<Color>, int),
                DotVoxError,
            >((v.deep_view(), p as int)) && pos <= p <= end && v.len() == 256,
            Err(e) => spec_parse_RGBA(data@, pos as int, end as int) == Err::<
                (Seq<Color>, int),
                DotVoxError,
            >(e),
        }),
{
    if end - pos < 1024 {
        return Err(DotVoxError::Truncated { offset: pos });
    }
    let mut colors: Vec<Color> = Vec::new();
    let mut k: usize = 0;
    while k < 256
        invariant
            k <= 256,
            pos + 1024 <= end <= data.len(),
            colors.len() == k,
            forall|j: int| 0 <= j < k ==> colors[j] == spec_color_at(data@, pos + 4 * j),
        decreases 256 - k,
    {
        let base = pos + 4 * k;
        colors.push(
            Color {
                name: None,
                r: data[base],
                g: data[base + 1],
                b: data[base + 2],
                a: data[base + 3],
            },
        );
        k = k + 1;
    }
    proof {
        assert(colors.deep_view() =~= Seq::new(256, |j: int| spec_color_at(data@, pos + 4 * j)));
    }
    Ok((colors, pos + 1024))
}

/// Decodes an `IMAP` payload.
pub fn parse_IMAP(data: &Vec<u8>, pos: usize, end: usize) -> (r: Result<
    (Vec<u8>, usize),
    DotVoxError,
>)
    requires
        pos <= end <= data.len(),
    ensures
        (match r {
            Ok((v, p)) => spec_parse_IMAP(data@, pos as int, end as int) == Ok::<
                (Seq<u8>, int),
                DotVoxError,
            >((v.deep_view(), p as int)) && pos <= p <= end,
            Err(e) => spec_parse_IMAP(data@, pos as int, end as int) == Err::<
                (Seq<u8>, int),
                DotVoxError,
            >(e),
        }),
{
    if end - pos < 256 {
        return Err(DotVoxError::Truncated { offset: pos });
    }
    let table = copy_range(data, pos, pos + 256);
    proof {
        assert(table.deep_view() =~= table@);
    }
    Ok((table, pos + 256))
}

/// Decodes one bitmask-gated optional field of a `MATT` payload.
fn parse_opt_field(data: &Vec<u8>, pos: usize, end: usize, present: bool) -> (r: Result<
    (Option<u32>, usize),
    DotVoxError,
>)
    requires
        pos <= end <= data.len(),
    ensures
        (match r {
            Ok((v, p)) => spec_parse_opt_field(data@, pos as int, end as int, present) == Ok::<
                (Option<u32>, int),
                DotVoxError,
            >((v, p as int)) && pos <= p <= end,
            Err(e) => spec_parse_opt_field(data@, pos as int, end as int, present) == Err::<
                (Option<u32>, int),
                DotVoxError,
            >(e),
        }),
{
    if present {
        match parse_u32(data, pos, end) {
            Ok((v, p)) => Ok((Some(v), p)),
            Err(e) => Err(e),
        }
    } else {
        Ok((None, pos))
    }
}

/// Decodes a `MATT` payload.
pub fn parse_MATT(data: &Vec<u8>, pos: usize, end: usize) -> (r: Result<
    (MaterialV1, usize),
    DotVoxError,
>)
    requires
        pos <= end <= data.len(),
    ensures
        (match r {
            Ok((v, p)) => spec_parse_MATT(data@, pos as int, end as int) == Ok::<
                (MaterialV1, int),
                DotVoxError,
            >((v, p as int)) && pos <= p <= end,
            Err(e) => spec_parse_MATT(data@, pos as int, end as int) == Err::<
                (MaterialV1, int),
                DotVoxError,
            >(e),
        }),
{
    let id = match parse_u32(data, pos, end) {
        Ok(v) => v,
        Err(e) => {
            return Err(e);
        },
    };
    let kind = match parse_u32(data, id.1, end) {
        Ok(v) => v,
        Err(e) => {
            return Err(e);
        },
    };
    let weight = match parse_u32(data, kind.1, end) {
        Ok(v) => v,
        Err(e) => {
            return Err(e);
        },
    };
    let bits = match parse_u32(data, weight.1, end) {
        Ok(v) => v,
        Err(e) => {
            return Err(e);
        },
    };
    let mask = bits.0;
    let plastic = match parse_opt_field(data, bits.1, end, mask & 0x01 != 0) {
        Ok(v) => v,
        Err(e) => {
            return Err(e);
        },
    };
    let roughness = match parse_opt_field(data, plastic.1, end, mask & 0x02 != 0) {
        Ok(v) => v,
        Err(e) => {
            return Err(e);
        },
    };
    let specular = match parse_opt_field(data, roughness.1, end, mask & 0x04 != 0) {
        Ok(v) => v,
        Err(e) => {
            return Err(e);
        },
    };
    let ior = match parse_opt_field(data, specular.1, end, mask & 0x08 != 0) {
        Ok(v) => v,
        Err(e) => {
            return Err(e);
        },
    };
    let attenuation = match parse_opt_field(data, ior.1, end, mask & 0x10 != 0) {
        Ok(v) => v,
        Err(e) => {
            return Err(e);
        },
    };
    let power = match parse_opt_field(data, attenuation.1, end, mask & 0x20 != 0) {
        Ok(v) => v,
        Err(e) => {
            return Err(e);
        },
    };
    let glow = match parse_opt_field(data, power.1, end, mask & 0x40 != 0) {
        Ok(v) => v,
        Err(e) => {
            return Err(e);
        },
    };
    Ok((
        MaterialV1 {
            id: id.0,
            kind: kind.0,
            weight: weight.0,
            plastic: plastic.0,
            roughness: roughness.0,
            specular: specular.0,
            ior: ior.0,
            attenuation: attenuation.0,
            power: power.0,
            glow: glow.0,
            is_total_power: mask & 0x80 != 0,
        },
        glow.1,
    ))
}

/// Decodes a `MATL` payload.
pub fn parse_MATL(data: &Vec<u8>, pos: usize, end: usize) -> (r: Result<
    (MaterialV2, usize),
    DotVoxError,
>)
    requires
        pos <= end <= data.len(),
    ensures
        (match r {
            Ok((v, p)) => spec_parse_MATL(data@, pos as int, end as int) == Ok::<
                (MaterialV2View, int),
                DotVoxError,
            >((v.deep_view(), p as int)) && pos <= p <= end,
            Err(e) => spec_parse_MATL(data@, pos as int, end as int) == Err::<
                (MaterialV2View, int),
                DotVoxError,
            >(e),
        }),
{
    let id = match parse_u32(data, pos, end) {
        Ok(v) => v,
        Err(e) => {
            return Err(e);
        },
    };
    let props = match parse_DICT(data, id.1, end) {
        Ok(v) => v,
        Err(e) => {
            return Err(e);
        },
    };
    Ok((MaterialV2 { id: id.0, properties: props.0 }, props.1))
}

/// Decodes an `rOBJ` payload.
pub fn parse_rOBJ(data: &Vec<u8>, pos: usize, end: usize) -> (r: Result<
    (Dict, usize),
    DotVoxError,
>)
    requires
        pos <= end <= data.len(),
    ensures
        (match r {
            Ok((v, p)) => spec_parse_rOBJ(data@, pos as int, end as int) == Ok::<
                (DictView, int),
                DotVoxError,
            >((v.deep_view(), p as int)) && pos <= p <= end,
            Err(e) => spec_parse_rOBJ(data@, pos as int, end as int) == Err::<
                (DictView, int),
                DotVoxError,
            >(e),
        }),
{
    parse_DICT(data, pos, end)
}

/// Decodes an `rCAM` payload.
pub fn parse_rCAM(data: &Vec<u8>, pos: usize, end: usize) -> (r: Result<
    (Camera, usize),
    DotVoxError,
>)
    requires
        pos <= end <= data.len(),
    ensures
        (match r {
            Ok((v, p)) => spec_parse_rCAM(data@, pos as int, end as int) == Ok::<
                (CameraView, int),
                DotVoxError,
            >((v.deep_view(), p as int)) && pos <= p <= end,
            Err(e) => spec_parse_rCAM(data@, pos as int, end as int) == Err::<
                (CameraView, int),
                DotVoxError,
            >(e),
        }),
{
    let id = match parse_u32(data, pos, end) {
        Ok(v) => v,
        Err(e) => {
            return Err(e);
        },
    };
    let attrs = match parse_DICT(data, id.1, end) {
        Ok(v) => v,
        Err(e) => {
            return Err(e);
        },
    };
    Ok((Camera { id: id.0, attributes: attrs.0 }, attrs.1))
}

/// Decodes a `NOTE` payload.
pub fn parse_NOTE(data: &Vec<u8>, pos: usize, end: usize) -> (r: Result<
    (Vec<String>, usize),
    DotVoxError,
>)
    requires
        pos <= end <= data.len(),
    ensures
        (match r {
            Ok((v, p)) => spec_parse_NOTE(data@, pos as int, end as int) == Ok::<
                (Seq<Seq<char>>, int),
                DotVoxError,
            >((v.deep_view(), p as int)) && pos <= p <= end,
            Err(e) => spec_parse_NOTE(data@, pos as int, end as int) == Err::<
                (Seq<Seq<char>>, int),
                DotVoxError,
            >(e),
        }),
{
    let nr = match parse_u32(data, pos, end) {
        Ok(v) => v,
        Err(e) => {
            return Err(e);
        },
    };
    let n = nr.0;
    let p0 = nr.1;
    let mut strings: Vec<String> = Vec::new();
    let mut cur: usize = p0;
    let mut i: u32 = 0;
    while i < n
        invariant
            pos <= end <= data.len(),
            p0 <= cur <= end,
            i <= n,
            spec_parse_u32(data@, pos as int, end as int) == Ok::<(u32, int), DotVoxError>(
                (n, p0 as int),
            ),
            (forall|rest: Seq<Seq<char>>, q: int|
                spec_parse_strings(data@, cur as int, end as int, (n - i) as nat) == Ok::<
                    (Seq<Seq<char>>, int),
                    DotVoxError,
                >((rest, q)) ==> spec_parse_strings(data@, p0 as int, end as int, n as nat) == Ok::<
                    (Seq<Seq<char>>, int),
                    DotVoxError,
                >((strings.deep_view() + rest, q))),
            (forall|e: DotVoxError|
                spec_parse_strings(data@, cur as int, end as int, (n - i) as nat) == Err::<
                    (Seq<Seq<char>>, int),
                    DotVoxError,
                >(e) ==> spec_parse_strings(data@, p0 as int, end as int, n as nat) == Err::<
                    (Seq<Seq<char>>, int),
                    DotVoxError,
                >(e)),
        decreases n - i,
    {
        let ghost prev = strings.deep_view();
        let ghost prev_cur = cur as int;
        let sv = match parse_STRING(data, cur, end) {
            Ok(v) => v,
            Err(e) => {
                proof {
                    assert(spec_parse_strings(data@, prev_cur, end as int, (n - i) as nat) == Err::<
                        (Seq<Seq<char>>, int),
                        DotVoxError,
                    >(e));
                    assert(spec_parse_strings(data@, p0 as int, end as int, n as nat) == Err::<
                        (Seq<Seq<char>>, int),
                        DotVoxError,
                    >(e));
                    assert(spec_parse_NOTE(data@, pos as int, end as int) == Err::<
                        (Seq<Seq<char>>, int),
                        DotVoxError,
                    >(e));
                }
                return Err(e);
            },
        };
        cur = sv.1;
        strings.push(sv.0);
        i = i + 1;
        proof {
            assert(strings.deep_view() =~= prev.push(strings[strings.len() - 1]@));
            assert forall|rest: Seq<Seq<char>>, q: int|
                spec_parse_strings(data@, cur as int, end as int, (n - i) as nat) == Ok::<
                    (Seq<Seq<char>>, int),
                    DotVoxError,
                >((rest, q)) implies spec_parse_strings(data@, p0 as int, end as int, n as nat)
                == Ok::<(Seq<Seq<char>>, int), DotVoxError>((strings.deep_view() + rest, q)) by {
                assert(spec_parse_strings(data@, prev_cur, end as int, (n - (i - 1)) as nat)
                    == Ok::<(Seq<Seq<char>>, int), DotVoxError>(
                    (seq![strings[strings.len() - 1]@] + rest, q),
                ));
                assert(prev + (seq![strings[strings.len() - 1]@] + rest) =~= strings.deep_view()
                    + rest);
            }
            assert forall|e: DotVoxError|
                spec_parse_strings(data@, cur as int, end as int, (n - i) as nat) == Err::<
                    (Seq<Seq<char>>, int),
                    DotVoxError,
                >(e) implies spec_parse_strings(data@, p0 as int, end as int, n as nat) == Err::<
                (Seq<Seq<char>>, int),
                DotVoxError,
            >(e) by {
                assert(spec_parse_strings(data@, prev_cur, end as int, (n - (i - 1)) as nat)
                    == Err::<(Seq<Seq<char>>, int), DotVoxError>(e));
            }
        }
    }
    proof {
        assert(spec_parse_strings(data@, cur as int, end as int, 0) == Ok::<
            (Seq<Seq<char>>, int),
            DotVoxError,
        >((Seq::empty(), cur as int)));
        assert(strings.deep_view() + Seq::<Seq<char>>::empty() =~= strings.deep_view());
        assert(spec_parse_strings(data@, p0 as int, end as int, n as nat) == Ok::<
            (Seq<Seq<char>>, int),
            DotVoxError,
        >((strings.deep_view(), cur as int)));
        assert(spec_parse_NOTE(data@, pos as int, end as int) == Ok::<
            (Seq<Seq<char>>, int),
            DotVoxError,
        >((strings.deep_view(), cur as int)));
    }
    Ok((strings, cur))
}

/// Decodes `n` consecutive dictionaries.
fn parse_dicts(data: &Vec<u8>, pos: usize, end: usize, n: u32) -> (r: Result<
    (Vec<Dict>, usize),
    DotVoxError,
>)
    requires
        pos <= end <= data.len(),
    ensures
        (match r {
            Ok((v, p)) => spec_parse_dicts(data@, pos as int, end as int, n as nat) == Ok::<
                (Seq<DictView>, int),
                DotVoxError,
            >((v.deep_view(), p as int)) && pos <= p <= end,
            Err(e) => spec_parse_dicts(data@, pos as int, end as int, n as nat) == Err::<
                (Seq<DictView>, int),
                DotVoxError,
            >(e),
        }),
{
    let mut dicts: Vec<Dict> = Vec::new();
    let mut cur: usize = pos;
    let mut i: u32 = 0;
    while i < n
        invariant
            pos <= cur <= end <= data.len(),
            i <= n,
            (forall|rest: Seq<DictView>, q: int|
                spec_parse_dicts(data@, cur as int, end as int, (n - i) as nat) == Ok::<
                    (Seq<DictView>, int),
                    DotVoxError,
                >((rest, q)) ==> spec_parse_dicts(data@, pos as int, end as int, n as nat) == Ok::<
                    (Seq<DictView>, int),
                    DotVoxError,
                >((dicts.deep_view() + rest, q))),
            (forall|e: DotVoxError|
                spec_parse_dicts(data@, cur as int, end as int, (n - i) as nat) == Err::<
                    (Seq<DictView>, int),
                    DotVoxError,
                >(e) ==> spec_parse_dicts(data@, pos as int, end as int, n as nat) == Err::<
                    (Seq<DictView>, int),
                    DotVoxError,
                >(e)),
        decreases n - i,
    {
        let ghost prev = dicts.deep_view();
        let ghost prev_cur = cur as int;
        let dv = match parse_DICT(data, cur, end) {
            Ok(v) => v,
            Err(e) => {
                proof {
                    assert(spec_parse_dicts(data@, prev_cur, end as int, (n - i) as nat) == Err::<
                        (Seq<DictView>, int),
                        DotVoxError,
                    >(e));
                }
                return Err(e);
            },
        };
        cur = dv.1;
        dicts.push(dv.0);
        i = i + 1;
        proof {
            assert(dicts.deep_view() =~= prev.push(dicts[dicts.len() - 1].deep_view()));
            assert forall|rest: Seq<DictView>, q: int|
                spec_parse_dicts(data@, cur as int, end as int, (n - i) as nat) == Ok::<
                    (Seq<DictView>, int),
                    DotVoxError,
                >((rest, q)) implies spec_parse_dicts(data@, pos as int, end as int, n as nat)
                == Ok::<(Seq<DictView>, int), DotVoxError>((dicts.deep_view() + rest, q)) by {
                assert(spec_parse_dicts(data@, prev_cur, end as int, (n - (i - 1)) as nat) == Ok::<
                    (Seq<DictView>, int),
                    DotVoxError,
                >((seq![dicts[dicts.len() - 1].deep_view()] + rest, q)));
                assert(prev + (seq![dicts[dicts.len() - 1].deep_view()] + rest)
                    =~= dicts.deep_view() + rest);
            }
            assert forall|e: DotVoxError|
                spec_parse_dicts(data@, cur as int, end as int, (n - i) as nat) == Err::<
                    (Seq<DictView>, int),
                    DotVoxError,
                >(e) implies spec_parse_dicts(data@, pos as int, end as int, n as nat) == Err::<
                (Seq<DictView>, int),
                DotVoxError,
            >(e) by {
                assert(spec_parse_dicts(data@, prev_cur, end as int, (n - (i - 1)) as nat) == Err::<
                    (Seq<DictView>, int),
                    DotVoxError,
                >(e));
            }
        }
    }
    proof {
        assert(spec_parse_dicts(data@, cur as int, end as int, 0) == Ok::<
            (Seq<DictView>, int),
            DotVoxError,
        >((Seq::empty(), cur as int)));
        assert(dicts.deep_view() + Seq::<DictView>::empty() =~= dicts.deep_view());
    }
    Ok((dicts, cur))
}

/// Decodes an `nTRN` payload.
pub fn parse_nTRN(data: &Vec<u8>, pos: usize, end: usize) -> (r: Result<
    (TransformNode, usize),
    DotVoxError,
>)
    requires
        pos <= end <= data.len(),
    ensures
        (match r {
            Ok((v, p)) => spec_parse_nTRN(data@, pos as int, end as int) == Ok::<
                (TransformNodeView, int),
                DotVoxError,
            >((v.deep_view(), p as int)) && pos <= p <= end,
            Err(e) => spec_parse_nTRN(data@, pos as int, end as int) == Err::<
                (TransformNodeView, int),
                DotVoxError,
            >(e),
        }),
{
    let id = match parse_u32(data, pos, end) {
        Ok(v) => v,
        Err(e) => {
            return Err(e);
        },
    };
    let attrib = match parse_DICT(data, id.1, end) {
        Ok(v) => v,
        Err(e) => {
            return Err(e);
        },
    };
    let child = match parse_u32(data, attrib.1, end) {
        Ok(v) => v,
        Err(e) => {
            return Err(e);
        },
    };
    let reserved = match parse_i32(data, child.1, end) {
        Ok(v) => v,
        Err(e) => {
            return Err(e);
        },
    };
    let layer = match parse_u32(data, reserved.1, end) {
        Ok(v) => v,
        Err(e) => {
            return Err(e);
        },
    };
    let count = match parse_u32(data, layer.1, end) {
        Ok(v) => v,
        Err(e) => {
            return Err(e);
        },
    };
    let frames = match parse_dicts(data, count.1, end, count.0) {
        Ok(v) => v,
        Err(e) => {
            return Err(e);
        },
    };
    Ok((
        TransformNode {
            id: id.0,
            attrib: attrib.0,
            child_node_id: child.0,
            reserved_id: reserved.0,
            layer_id: layer.0,
            frames: frames.0,
        },
        frames.1,
    ))
}

/// Decodes an `nGRP` payload.
pub fn parse_nGRP(data: &Vec<u8>, pos: usize, end: usize) -> (r: Result<
    (GroupNode, usize),
    DotVoxError,
>)
    requires
        pos <= end <= data.len(),
    ensures
        (match r {
            Ok((v, p)) => spec_parse_nGRP(data@, pos as int, end as int) == Ok::<
                (GroupNodeView, int),
                DotVoxError,
            >((v.deep_view(), p as int)) && pos <= p <= end,
            Err(e) => spec_parse_nGRP(data@, pos as int, end as int) == Err::<
                (GroupNodeView, int),
                DotVoxError,
            >(e),
        }),
{
    let id = match parse_u32(data, pos, end) {
        Ok(v) => v,
        Err(e) => {
            return Err(e);
        },
    };
    let attrib = match parse_DICT(data, id.1, end) {
        Ok(v) => v,
        Err(e) => {
            return Err(e);
        },
    };
    let nr = match parse_u32(data, attrib.1, end) {
        Ok(v) => v,
        Err(e) => {
            return Err(e);
        },
    };
    let n = nr.0 as usize;
    let p = nr.1;
    if n > (end - p) / 4 {
        proof {
            assert(p as int + 4 * (nr.0 as int) > end as int);
        }
        return Err(DotVoxError::Truncated { offset: p });
    }
    proof {
        assert(p as int + 4 * (nr.0 as int) <= end as int);
    }
    let mut children: Vec<u32> = Vec::new();
    let mut k: usize = 0;
    while k < n
        invariant
            k <= n,
            p + 4 * n <= end <= data.len(),
            children.len() == k,
            forall|j: int| 0 <= j < k ==> children[j] == spec_u32_at(data@, p + 4 * j),
        decreases n - k,
    {
        let base = p + 4 * k;
        let b0 = data[base];
        let b1 = data[base + 1];
        let b2 = data[base + 2];
        let b3 = data[base + 3];
        children.push((b0 as u32) | ((b1 as u32) << 8) | ((b2 as u32) << 16) | ((b3 as u32) << 24));
        k = k + 1;
    }
    proof {
        assert(children.deep_view() =~= Seq::new(
            nr.0 as nat,
            |j: int| spec_u32_at(data@, nr.1 as int + 4 * j),
        ));
    }
    Ok((GroupNode { id: id.0, attrib: attrib.0, children }, p + 4 * n))
}

/// Decodes an `nSHP` payload.
pub fn parse_nSHP(data: &Vec<u8>, pos: usize, end: usize) -> (r: Result<
    (ShapeNode, usize),
    DotVoxError,
>)
    requires
        pos <= end <= data.len(),
    ensures
        (match r {
            Ok((v, p)) => spec_parse_nSHP(data@, pos as int, end as int) == Ok::<
                (ShapeNodeView, int),
                DotVoxError,
            >((v.deep_view(), p as int)) && pos <= p <= end,
            Err(e) => spec_parse_nSHP(data@, pos as int, end as int) == Err::<
                (ShapeNodeView, int),
                DotVoxError,
            >(e),
        }),
{
    let id = match parse_u32(data, pos, end) {
        Ok(v) => v,
        Err(e) => {
            return Err(e);
        },
    };
    let attrib = match parse_DICT(data, id.1, end) {
        Ok(v) => v,
        Err(e) => {
            return Err(e);
        },
    };
    let nr = match parse_u32(data, attrib.1, end) {
        Ok(v) => v,
        Err(e) => {
            return Err(e);
        },
    };
    let n = nr.0;
    let p0 = nr.1;
    let mut models: Vec<(u32, Dict)> = Vec::new();
    let mut cur: usize = p0;
    let mut i: u32 = 0;
    while i < n
        invariant
            pos <= end <= data.len(),
            p0 <= cur <= end,
            i <= n,
            id.1 <= end,
            spec_parse_u32(data@, pos as int, end as int) == Ok::<(u32, int), DotVoxError>(
                (id.0, id.1 as int),
            ),
            spec_parse_dict(data@, id.1 as int, end as int) == Ok::<(DictView, int), DotVoxError>(
                (attrib.0.deep_view(), attrib.1 as int),
            ),
            spec_parse_u32(data@, attrib.1 as int, end as int) == Ok::<(u32, int), DotVoxError>(
                (n, p0 as int),
            ),
            (forall|rest: Seq<(u32, DictView)>, q: int|
                spec_parse_shape_models(data@, cur as int, end as int, (n - i) as nat) == Ok::<
                    (Seq<(u32, DictView)>, int),
                    DotVoxError,
                >((rest, q)) ==> spec_parse_shape_models(data@, p0 as int, end as int, n as nat)
                    == Ok::<(Seq<(u32, DictView)>, int), DotVoxError>(
                    (models.deep_view() + rest, q),
                )),
            (forall|e: DotVoxError|
                spec_parse_shape_models(data@, cur as int, end as int, (n - i) as nat) == Err::<
                    (Seq<(u32, DictView)>, int),
                    DotVoxError,
                >(e) ==> spec_parse_shape_models(data@, p0 as int, end as int, n as nat) == Err::<
                    (Seq<(u32, DictView)>, int),
                    DotVoxError,
                >(e)),
        decreases n - i,
    {
        let ghost prev = models.deep_view();
        let ghost prev_cur = cur as int;
        let mid = match parse_u32(data, cur, end) {
            Ok(v) => v,
            Err(e) => {
                proof {
                    assert(spec_parse_shape_models(data@, prev_cur, end as int, (n - i) as nat)
                        == Err::<(Seq<(u32, DictView)>, int), DotVoxError>(e));
                    assert(spec_parse_shape_models(data@, p0 as int, end as int, n as nat)
                        == Err::<(Seq<(u32, DictView)>, int), DotVoxError>(e));
                    assert(spec_parse_nSHP(data@, pos as int, end as int)
                        == Err::<(ShapeNodeView, int), DotVoxError>(e));
                }
                return Err(e);
            },
        };
        let md = match parse_DICT(data, mid.1, end) {
            Ok(v) => v,
            Err(e) => {
                proof {
                    assert(spec_parse_shape_models(data@, prev_cur, end as int, (n - i) as nat)
                        == Err::<(Seq<(u32, DictView)>, int), DotVoxError>(e));
                    assert(spec_parse_shape_models(data@, p0 as int, end as int, n as nat)
                        == Err::<(Seq<(u32, DictView)>, int), DotVoxError>(e));
                    assert(spec_parse_nSHP(data@, pos as int, end as int)
                        == Err::<(ShapeNodeView, int), DotVoxError>(e));
                }
                return Err(e);
            },
        };
        cur = md.1;
        models.push((mid.0, md.0));
        i = i + 1;
        proof {
            assert(models.deep_view() =~= prev.push(
                (models[models.len() - 1].0, models[models.len() - 1].1.deep_view()),
            ));
            assert forall|rest: Seq<(u32, DictView)>, q: int|
                spec_parse_shape_models(data@, cur as int, end as int, (n - i) as nat) == Ok::<
                    (Seq<(u32, DictView)>, int),
                    DotVoxError,
                >((rest, q)) implies spec_parse_shape_models(
                data@,
                p0 as int,
                end as int,
                n as nat,
            ) == Ok::<(Seq<(u32, DictView)>, int), DotVoxError>(
                (models.deep_view() + rest, q),
            ) by {
                assert(spec_parse_shape_models(data@, prev_cur, end as int, (n - (i - 1)) as nat)
                    == Ok::<(Seq<(u32, DictView)>, int), DotVoxError>(
                    (
                        seq![(models[models.len() - 1].0, models[models.len() - 1].1.deep_view())]
                            + rest,
                        q,
                    ),
                ));
                assert(prev + (seq![
                    (models[models.len() - 1].0, models[models.len() - 1].1.deep_view()),
                ] + rest) =~= models.deep_view() + rest);
            }
            assert forall|e: DotVoxError|
                spec_parse_shape_models(data@, cur as int, end as int, (n - i) as nat) == Err::<
                    (Seq<(u32, DictView)>, int),
                    DotVoxError,
                >(e) implies spec_parse_shape_models(data@, p0 as int, end as int, n as nat)
                == Err::<(Seq<(u32, DictView)>, int), DotVoxError>(e) by {
                assert(spec_parse_shape_models(data@, prev_cur, end as int, (n - (i - 1)) as nat)
                    == Err::<(Seq<(u32, DictView)>, int), DotVoxError>(e));
            }
        }
    }
    proof {
        assert(spec_parse_shape_models(data@, cur as int, end as int, 0) == Ok::<
            (Seq<(u32, DictView)>, int),
            DotVoxError,
        >((Seq::empty(), cur as int)));
        assert(models.deep_view() + Seq::<(u32, DictView)>::empty() =~= models.deep_view());
        assert(spec_parse_shape_models(data@, p0 as int, end as int, n as nat) == Ok::<
            (Seq<(u32, DictView)>, int),
            DotVoxError,
        >((models.deep_view(), cur as int)));
        assert(spec_parse_nSHP(data@, pos as int, end as int) == Ok::<
            (ShapeNodeView, int),
            DotVoxError,
        >((ShapeNode { id: id.0, attrib: attrib.0, models }.deep_view(), cur as int)));
    }
    Ok((ShapeNode { id: id.0, attrib: attrib.0, models }, cur))
}

/// Decodes a `LAYR` payload.
pub fn parse_LAYR(data: &Vec<u8>, pos: usize, end: usize) -> (r: Result<
    (Layer, usize),
    DotVoxError,
>)
    requires
        pos <= end <= data.len(),
    ensures
        (match r {
            Ok((v, p)) => spec_parse_LAYR(data@, pos as int, end as int) == Ok::<
                (LayerView, int),
                DotVoxError,
            >((v.deep_view(), p as int)) && pos <= p <= end,
            Err(e) => spec_parse_LAYR(data@, pos as int, end as int) == Err::<
                (LayerView, int),
                DotVoxError,
            >(e),
        }),
{
    let id = match parse_u32(data, pos, end) {
        Ok(v) => v,
        Err(e) => {
            return Err(e);
        },
    };
    let attrs = match parse_DICT(data, id.1, end) {
        Ok(v) => v,
        Err(e) => {
            return Err(e);
        },
    };
    let reserved = match parse_i32(data, attrs.1, end) {
        Ok(v) => v,
        Err(e) => {
            return Err(e);
        },
    };
    Ok((Layer { id: id.0, attributes: attrs.0, reserved: reserved.0 }, reserved.1))
}

} // verus!
