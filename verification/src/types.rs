//! The document model produced by the decoder, together with the
//! mathematical views the contracts are stated over.
//!
//! Plain record types (only integers and booleans) are used directly in
//! specifications.  Types holding `Vec`, `String` or nested records get a
//! `...View` counterpart over `Seq` and `Seq<char>`, reached through
//! [`vstd::prelude::DeepView`].

use vstd::prelude::*;

verus! {

/// An insertion-ordered string-to-string attribute mapping.
///
/// The on-disk dictionary layout is an entry count followed by that many
/// (key, value) pairs of length-prefixed strings; the order of entries is
/// preserved exactly as read.
pub type Dict = Vec<(String, String)>;

/// Spec-level value of a [`Dict`]: the ordered key/value pairs as
/// character sequences.
pub type DictView = Seq<(Seq<char>, Seq<char>)>;

/// An RGBA color, one entry of the 256-color palette.
#[derive(Clone, Debug, PartialEq, Eq)]
pub struct Color {
    /// An optional display name.  No decoder path populates it; it is
    /// reserved for future extension.
    pub name: Option<String>,
    pub r: u8,
    pub g: u8,
    pub b: u8,
    pub a: u8,
}

impl DeepView for Color {
    type V = Color;

    open spec fn deep_view(&self) -> Color {
        *self
    }
}

/// The color packed into `val` as `0xRRGGBBAA`, with no name.
pub open spec fn spec_color_from_u32(val: u32) -> Color {
    Color {
        name: None,
        r: ((val >> 24) & 0xff) as u8,
        g: ((val >> 16) & 0xff) as u8,
        b: ((val >> 8) & 0xff) as u8,
        a: (val & 0xff) as u8,
    }
}

impl Color {
    /// Unpacks a `0xRRGGBBAA` value into its four channels.
    pub fn from_u32(val: u32) -> (c: Color)
        ensures
            c == spec_color_from_u32(val),
    {
        Color {
            name: None,
            r: ((val >> 24) & 0xff) as u8,
            g: ((val >> 16) & 0xff) as u8,
            b: ((val >> 8) & 0xff) as u8,
            a: (val & 0xff) as u8,
        }
    }
}

/// A row-major 3x3 rotation matrix packed into one byte.
///
/// Bits 0-1 hold the column of the single non-zero entry of the first row,
/// bits 2-3 the column of the non-zero entry of the second row (the third
/// row's column is the remaining one), and bits 4, 5 and 6 hold the signs
/// of the three rows (0 positive, 1 negative).
#[derive(Clone, Copy, Debug, PartialEq, Eq)]
pub struct Rotation(pub u8);

/// Column of the non-zero entry in `row` of the matrix packed into `b`.
pub open spec fn spec_rotation_index(b: u8, row: int) -> int {
    if row == 0 {
        (b & 0x03) as int
    } else if row == 1 {
        ((b >> 2) & 0x03) as int
    } else {
        3 - (b & 0x03) as int - ((b >> 2) & 0x03) as int
    }
}

/// Sign of the non-zero entry in `row` of the matrix packed into `b`.
pub open spec fn spec_rotation_sign(b: u8, row: int) -> i8 {
    let bit: u8 = if row == 0 {
        b & 0x10
    } else if row == 1 {
        b & 0x20
    } else {
        b & 0x40
    };
    if bit != 0 {
        -1i8
    } else {
        1i8
    }
}

/// Entry (`row`, `col`) of the matrix packed into `b`.
pub open spec fn spec_rotation_entry(b: u8, row: int, col: int) -> i8 {
    if col == spec_rotation_index(b, row) {
        spec_rotation_sign(b, row)
    } else {
        0
    }
}

impl Rotation {
    /// A rotation byte is well formed when the first two rows name two
    /// distinct columns among the three; the third column then follows.
    /// Other bytes do not describe a permutation matrix.
    pub open spec fn well_formed(self) -> bool {
        &&& (self.0 & 0x03) < 3
        &&& ((self.0 >> 2) & 0x03) < 3
        &&& (self.0 & 0x03) != ((self.0 >> 2) & 0x03)
    }

    /// Unpacks the byte into a row-major matrix of `-1`, `0` and `1`
    /// entries, one signed unit entry per row and per column.
    pub fn to_matrix(&self) -> (m: [[i8; 3]; 3])
        requires
            self.well_formed(),
        ensures
            forall|row: int, col: int|
                0 <= row < 3 && 0 <= col < 3 ==> m[row]@[col] == spec_rotation_entry(
                    self.0,
                    row,
                    col,
                ),
    {
        let idx0: usize = (self.0 & 0x03) as usize;
        let idx1: usize = ((self.0 >> 2) & 0x03) as usize;
        let idx2: usize = 3 - idx0 - idx1;
        let s0: i8 = if self.0 & 0x10 != 0 { -1 } else { 1 };
        let s1: i8 = if self.0 & 0x20 != 0 { -1 } else { 1 };
        let s2: i8 = if self.0 & 0x40 != 0 { -1 } else { 1 };
        let row0: [i8; 3] = if idx0 == 0 {
            [s0, 0, 0]
        } else if idx0 == 1 {
            [0, s0, 0]
        } else {
            [0, 0, s0]
        };
        let row1: [i8; 3] = if idx1 == 0 {
            [s1, 0, 0]
        } else if idx1 == 1 {
            [0, s1, 0]
        } else {
            [0, 0, s1]
        };
        let row2: [i8; 3] = if idx2 == 0 {
            [s2, 0, 0]
        } else if idx2 == 1 {
            [0, s2, 0]
        } else {
            [0, 0, s2]
        };
        [row0, row1, row2]
    }
}

/// The model count announced by a `PACK` chunk.
#[derive(Clone, Copy, Debug, PartialEq, Eq)]
pub struct Pack(pub u32);

impl DeepView for Pack {
    type V = Pack;

    open spec fn deep_view(&self) -> Pack {
        *self
    }
}

/// The size of a model in voxels.
#[derive(Clone, Copy, Debug, PartialEq, Eq, PartialOrd, Ord)]
pub struct Size {
    /// The width of the model in voxels.
    pub x: u32,
    /// The height of the model in voxels.
    pub y: u32,
    /// The depth of the model in voxels.
    pub z: u32,
}

impl DeepView for Size {
    type V = Size;

    open spec fn deep_view(&self) -> Size {
        *self
    }
}

/// A sparse volumetric pixel.
#[derive(Clone, Copy, Debug, PartialEq, Eq)]
pub struct Voxel {
    pub x: u8,
    pub y: u8,
    pub z: u8,
    /// Index into the color palette, kept exactly as stored on disk.  The
    /// on-disk value is 1-based, so callers subtract 1 to address the
    /// 0-based palette.
    pub i: u8,
}

impl DeepView for Voxel {
    type V = Voxel;

    open spec fn deep_view(&self) -> Voxel {
        *self
    }
}

/// A sparse voxel model: a size paired with the voxels inside it.
#[derive(Clone, Debug, PartialEq, Eq)]
pub struct Model {
    /// Sequential 0-based identifier, in the order models were completed
    /// during assembly.
    pub id: u32,
    pub size: Size,
    pub voxels: Vec<Voxel>,
}

/// Spec-level value of a [`Model`].
#[verifier::ext_equal]
pub struct ModelView {
    pub id: u32,
    pub size: Size,
    pub voxels: Seq<Voxel>,
}

impl DeepView for Model {
    type V = ModelView;

    open spec fn deep_view(&self) -> ModelView {
        ModelView { id: self.id, size: self.size, voxels: self.voxels.deep_view() }
    }
}

/// A v1 material record (`MATT` chunk).
///
/// The 32-bit float fields of the on-disk record are kept as their raw
/// little-endian bit patterns, so the record stays an exact image of the
/// bytes; callers reinterpret the bits as `f32` when rendering.
#[derive(Clone, Copy, Debug, PartialEq, Eq)]
pub struct MaterialV1 {
    pub id: u32,
    /// 0 diffuse, 1 metal, 2 glass, 3 emissive.
    pub kind: u32,
    /// Material weight, as raw `f32` bits.
    pub weight: u32,
    /// Plastic property value (raw `f32` bits), when bit 0 of the
    /// property bitmask is set.
    pub plastic: Option<u32>,
    /// Roughness (raw `f32` bits), when bit 1 is set.
    pub roughness: Option<u32>,
    /// Specular (raw `f32` bits), when bit 2 is set.
    pub specular: Option<u32>,
    /// Index of refraction (raw `f32` bits), when bit 3 is set.
    pub ior: Option<u32>,
    /// Attenuation (raw `f32` bits), when bit 4 is set.
    pub attenuation: Option<u32>,
    /// Power (raw `f32` bits), when bit 5 is set.
    pub power: Option<u32>,
    /// Glow (raw `f32` bits), when bit 6 is set.
    pub glow: Option<u32>,
    /// Bit 7 of the property bitmask; consumes no payload bytes.
    pub is_total_power: bool,
}

impl DeepView for MaterialV1 {
    type V = MaterialV1;

    open spec fn deep_view(&self) -> MaterialV1 {
        *self
    }
}

/// A v2 material record (`MATL` chunk): an id and free-form properties.
#[derive(Clone, Debug, PartialEq, Eq)]
pub struct MaterialV2 {
    pub id: u32,
    /// Properties of the material, keyed by property name.
    pub properties: Dict,
}

/// Spec-level value of a [`MaterialV2`].
#[verifier::ext_equal]
pub struct MaterialV2View {
    pub id: u32,
    pub properties: DictView,
}

impl DeepView for MaterialV2 {
    type V = MaterialV2View;

    open spec fn deep_view(&self) -> MaterialV2View {
        MaterialV2View { id: self.id, properties: self.properties.deep_view() }
    }
}

/// A material of either version, in chunk arrival order.
#[derive(Clone, Debug, PartialEq, Eq)]
pub enum Material {
    V1(MaterialV1),
    V2(MaterialV2),
}

/// Spec-level value of a [`Material`].
#[verifier::ext_equal]
pub enum MaterialView {
    V1(MaterialV1),
    V2(MaterialV2View),
}

impl DeepView for Material {
    type V = MaterialView;

    open spec fn deep_view(&self) -> MaterialView {
        match self {
            Material::V1(m) => MaterialView::V1(*m),
            Material::V2(m) => MaterialView::V2(m.deep_view()),
        }
    }
}

/// A scene-graph transform node (`nTRN` chunk).
#[derive(Clone, Debug, PartialEq, Eq)]
pub struct TransformNode {
    pub id: u32,
    pub attrib: Dict,
    /// Identifier of the single child node; resolved by the consumer, a
    /// dangling id is not a parse error.
    pub child_node_id: u32,
    /// Reserved field; `-1` means "none".
    pub reserved_id: i32,
    pub layer_id: u32,
    /// One attribute dictionary per animation frame.
    pub frames: Vec<Dict>,
}

/// Spec-level value of a [`TransformNode`].
#[verifier::ext_equal]
pub struct TransformNodeView {
    pub id: u32,
    pub attrib: DictView,
    pub child_node_id: u32,
    pub reserved_id: i32,
    pub layer_id: u32,
    pub frames: Seq<DictView>,
}

impl DeepView for TransformNode {
    type V = TransformNodeView;

    open spec fn deep_view(&self) -> TransformNodeView {
        TransformNodeView {
            id: self.id,
            attrib: self.attrib.deep_view(),
            child_node_id: self.child_node_id,
            reserved_id: self.reserved_id,
            layer_id: self.layer_id,
            frames: self.frames.deep_view(),
        }
    }
}

/// A scene-graph group node (`nGRP` chunk).
#[derive(Clone, Debug, PartialEq, Eq)]
pub struct GroupNode {
    pub id: u32,
    pub attrib: Dict,
    /// Identifiers of the child nodes.
    pub children: Vec<u32>,
}

/// Spec-level value of a [`GroupNode`].
#[verifier::ext_equal]
pub struct GroupNodeView {
    pub id: u32,
    pub attrib: DictView,
    pub children: Seq<u32>,
}

impl DeepView for GroupNode {
    type V = GroupNodeView;

    open spec fn deep_view(&self) -> GroupNodeView {
        GroupNodeView {
            id: self.id,
            attrib: self.attrib.deep_view(),
            children: self.children.deep_view(),
        }
    }
}

/// A scene-graph shape node (`nSHP` chunk).
#[derive(Clone, Debug, PartialEq, Eq)]
pub struct ShapeNode {
    pub id: u32,
    pub attrib: Dict,
    /// The referenced (model id, attributes) pairs.
    pub models: Vec<(u32, Dict)>,
}

/// Spec-level value of a [`ShapeNode`].
#[verifier::ext_equal]
pub struct ShapeNodeView {
    pub id: u32,
    pub attrib: DictView,
    pub models: Seq<(u32, DictView)>,
}

impl DeepView for ShapeNode {
    type V = ShapeNodeView;

    open spec fn deep_view(&self) -> ShapeNodeView {
        ShapeNodeView {
            id: self.id,
            attrib: self.attrib.deep_view(),
            models: self.models.deep_view(),
        }
    }
}

/// A layer record (`LAYR` chunk).
#[derive(Clone, Debug, PartialEq, Eq)]
pub struct Layer {
    pub id: u32,
    pub attributes: Dict,
    /// Reserved field; `-1` means "none".
    pub reserved: i32,
}

/// Spec-level value of a [`Layer`].
#[verifier::ext_equal]
pub struct LayerView {
    pub id: u32,
    pub attributes: DictView,
    pub reserved: i32,
}

impl DeepView for Layer {
    type V = LayerView;

    open spec fn deep_view(&self) -> LayerView {
        LayerView {
            id: self.id,
            attributes: self.attributes.deep_view(),
            reserved: self.reserved,
        }
    }
}

/// A render camera record (`rCAM` chunk).
#[derive(Clone, Debug, PartialEq, Eq)]
pub struct Camera {
    pub id: u32,
    pub attributes: Dict,
}

/// Spec-level value of a [`Camera`].
#[verifier::ext_equal]
pub struct CameraView {
    pub id: u32,
    pub attributes: DictView,
}

impl DeepView for Camera {
    type V = CameraView;

    open spec fn deep_view(&self) -> CameraView {
        CameraView { id: self.id, attributes: self.attributes.deep_view() }
    }
}

/// One scene-graph record, tagged by its kind, in chunk arrival order.
/// Nodes reference each other only by integer identifier; dangling
/// references are resolved (or ignored) by the consumer, not the decoder.
#[derive(Clone, Debug, PartialEq, Eq)]
pub enum SceneNode {
    Transform(TransformNode),
    Group(GroupNode),
    Shape(ShapeNode),
    Layer(Layer),
}

/// Spec-level value of a [`SceneNode`].
#[verifier::ext_equal]
pub enum SceneNodeView {
    Transform(TransformNodeView),
    Group(GroupNodeView),
    Shape(ShapeNodeView),
    Layer(LayerView),
}

impl DeepView for SceneNode {
    type V = SceneNodeView;

    open spec fn deep_view(&self) -> SceneNodeView {
        match self {
            SceneNode::Transform(n) => SceneNodeView::Transform(n.deep_view()),
            SceneNode::Group(n) => SceneNodeView::Group(n.deep_view()),
            SceneNode::Shape(n) => SceneNodeView::Shape(n.deep_view()),
            SceneNode::Layer(n) => SceneNodeView::Layer(n.deep_view()),
        }
    }
}

/// One parsed chunk of the tree: a variant per recognized tag, plus a
/// catch-all `Unknown` keeping the raw payload and the parsed children.
#[derive(Debug, PartialEq, Eq)]
#[allow(non_camel_case_types)]
pub enum Chunk {
    /// The root container: no meaningful content, many children.
    MAIN(Vec<Chunk>),
    /// Model dimensions.
    SIZE(Size),
    /// The voxel list of a model.
    XYZI(Vec<Voxel>),
    /// Model count announcement.
    PACK(Pack),
    /// A full 256-entry color palette.
    RGBA(Vec<Color>),
    /// A v1 material.
    MATT(MaterialV1),
    /// A v2 material.
    MATL(MaterialV2),
    /// A render object's attributes.
    rOBJ(Dict),
    /// A render camera.
    rCAM(Camera),
    /// A 256-byte palette index remap table.
    IMAP(Vec<u8>),
    /// A list of annotation strings.
    NOTE(Vec<String>),
    /// A scene-graph transform node.
    nTRN(TransformNode),
    /// A scene-graph group node.
    nGRP(GroupNode),
    /// A scene-graph shape node.
    nSHP(ShapeNode),
    /// A layer record.
    LAYR(Layer),
    /// Any unrecognized tag: the payload is kept raw and the children are
    /// still parsed, so the chunk remains round-trippable.
    Unknown { kind: String, contents: Vec<u8>, children: Vec<Chunk> },
}

/// Spec-level value of a [`Chunk`].
#[verifier::ext_equal]
#[allow(non_camel_case_types)]
pub enum ChunkView {
    MAIN(Seq<ChunkView>),
    SIZE(Size),
    XYZI(Seq<Voxel>),
    PACK(Pack),
    RGBA(Seq<Color>),
    MATT(MaterialV1),
    MATL(MaterialV2View),
    rOBJ(DictView),
    rCAM(CameraView),
    IMAP(Seq<u8>),
    NOTE(Seq<Seq<char>>),
    nTRN(TransformNodeView),
    nGRP(GroupNodeView),
    nSHP(ShapeNodeView),
    LAYR(LayerView),
    Unknown { kind: Seq<char>, contents: Seq<u8>, children: Seq<ChunkView> },
}

impl DeepView for Chunk {
    type V = ChunkView;

    open spec fn deep_view(&self) -> ChunkView
        decreases self,
    {
        match self {
            Chunk::MAIN(children) => ChunkView::MAIN(
                Seq::new(
                    children.len() as nat,
                    |i: int|
                        if 0 <= i < children.len() {
                            children[i].deep_view()
                        } else {
                            arbitrary()
                        },
                ),
            ),
            Chunk::SIZE(s) => ChunkView::SIZE(*s),
            Chunk::XYZI(vs) => ChunkView::XYZI(vs.deep_view()),
            Chunk::PACK(p) => ChunkView::PACK(*p),
            Chunk::RGBA(cs) => ChunkView::RGBA(cs.deep_view()),
            Chunk::MATT(m) => ChunkView::MATT(*m),
            Chunk::MATL(m) => ChunkView::MATL(m.deep_view()),
            Chunk::rOBJ(d) => ChunkView::rOBJ(d.deep_view()),
            Chunk::rCAM(c) => ChunkView::rCAM(c.deep_view()),
            Chunk::IMAP(bs) => ChunkView::IMAP(bs.deep_view()),
            Chunk::NOTE(ss) => ChunkView::NOTE(ss.deep_view()),
            Chunk::nTRN(n) => ChunkView::nTRN(n.deep_view()),
            Chunk::nGRP(n) => ChunkView::nGRP(n.deep_view()),
            Chunk::nSHP(n) => ChunkView::nSHP(n.deep_view()),
            Chunk::LAYR(l) => ChunkView::LAYR(l.deep_view()),
            Chunk::Unknown { kind, contents, children } => ChunkView::Unknown {
                kind: kind@,
                contents: contents@,
                children: Seq::new(
                    children.len() as nat,
                    |i: int|
                        if 0 <= i < children.len() {
                            children[i].deep_view()
                        } else {
                            arbitrary()
                        },
                ),
            },
        }
    }
}

/// The decoded document: everything the assembler folds out of the root
/// container's children.
#[derive(Clone, Debug, PartialEq, Eq)]
pub struct VoxFile {
    /// The format version read from the file header (150 in the empty
    /// default document).
    pub version: u32,
    /// All models of the file, in completion order.
    pub models: Vec<Model>,
    /// The color palette; always exactly 256 entries (the default table
    /// when the file carries no `RGBA` chunk).
    pub palette: Vec<Color>,
    /// All materials of the file, in chunk arrival order.
    pub materials: Vec<Material>,
    /// The scene graph records, in chunk arrival order.
    pub scenegraph: Vec<SceneNode>,
}

/// Spec-level value of a [`VoxFile`].
#[verifier::ext_equal]
pub struct VoxFileView {
    pub version: u32,
    pub models: Seq<ModelView>,
    pub palette: Seq<Color>,
    pub materials: Seq<MaterialView>,
    pub scenegraph: Seq<SceneNodeView>,
}

impl DeepView for VoxFile {
    type V = VoxFileView;

    open spec fn deep_view(&self) -> VoxFileView {
        VoxFileView {
            version: self.version,
            models: self.models.deep_view(),
            palette: self.palette.deep_view(),
            materials: self.materials.deep_view(),
            scenegraph: self.scenegraph.deep_view(),
        }
    }
}

impl VoxFile {
    /// The palette is always exactly 256 entries long.
    pub open spec fn well_formed(self) -> bool {
        self.palette.len() == 256
    }
}

/// One of the six descending channel levels of the default palette's
/// 6x6x6 color cube.
pub open spec fn spec_cube_level(k: int) -> u8 {
    if k == 0 {
        0xff
    } else if k == 1 {
        0xcc
    } else if k == 2 {
        0x99
    } else if k == 3 {
        0x66
    } else if k == 4 {
        0x33
    } else {
        0x00
    }
}

/// One of the ten descending levels of the default palette's single
/// channel ramps.
pub open spec fn spec_ramp_level(k: int) -> u8 {
    if k == 0 {
        0xee
    } else if k == 1 {
        0xdd
    } else if k == 2 {
        0xbb
    } else if k == 3 {
        0xaa
    } else if k == 4 {
        0x88
    } else if k == 5 {
        0x77
    } else if k == 6 {
        0x55
    } else if k == 7 {
        0x44
    } else if k == 8 {
        0x22
    } else {
        0x11
    }
}

/// Entry `i` of the default palette: transparent black, then 215 entries
/// of a descending color cube with the first channel fixed at `0xff`,
/// then three 10-step single-channel ramps, then a 10-step gray ramp.
pub open spec fn spec_default_palette_entry(i: int) -> Color {
    if i == 0 {
        Color { name: None, r: 0x00, g: 0x00, b: 0x00, a: 0x00 }
    } else if i < 216 {
        let j = i - 1;
        Color {
            name: None,
            r: 0xff,
            g: spec_cube_level(j % 6),
            b: spec_cube_level((j / 6) % 6),
            a: spec_cube_level(j / 36),
        }
    } else if i < 226 {
        Color { name: None, r: 0xff, g: 0x00, b: 0x00, a: spec_ramp_level(i - 216) }
    } else if i < 236 {
        Color { name: None, r: 0xff, g: 0x00, b: spec_ramp_level(i - 226), a: 0x00 }
    } else if i < 246 {
        Color { name: None, r: 0xff, g: spec_ramp_level(i - 236), b: 0x00, a: 0x00 }
    } else {
        let v = spec_ramp_level(i - 246);
        Color { name: None, r: 0xff, g: v, b: v, a: v }
    }
}

/// The default 256-entry palette used when a file has no `RGBA` chunk.
pub open spec fn spec_default_palette() -> Seq<Color> {
    Seq::new(256, |i: int| spec_default_palette_entry(i))
}

fn cube_level(k: usize) -> (v: u8)
    ensures
        v == spec_cube_level(k as int),
{
    if k == 0 {
        0xff
    } else if k == 1 {
        0xcc
    } else if k == 2 {
        0x99
    } else if k == 3 {
        0x66
    } else if k == 4 {
        0x33
    } else {
        0x00
    }
}

fn ramp_level(k: usize) -> (v: u8)
    ensures
        v == spec_ramp_level(k as int),
{
    if k == 0 {
        0xee
    } else if k == 1 {
        0xdd
    } else if k == 2 {
        0xbb
    } else if k == 3 {
        0xaa
    } else if k == 4 {
        0x88
    } else if k == 5 {
        0x77
    } else if k == 6 {
        0x55
    } else if k == 7 {
        0x44
    } else if k == 8 {
        0x22
    } else {
        0x11
    }
}

/// Builds the default palette table.
pub fn default_palette() -> (p: Vec<Color>)
    ensures
        p.deep_view() == spec_default_palette(),
        p.len() == 256,
{
    let mut p: Vec<Color> = Vec::new();
    let mut i: usize = 0;
    while i < 256
        invariant
            i <= 256,
            p.len() == i,
            forall|j: int| 0 <= j < i ==> p.deep_view()[j] == spec_default_palette_entry(j),
        decreases 256 - i,
    {
        let c: Color = if i == 0 {
            Color { name: None, r: 0x00, g: 0x00, b: 0x00, a: 0x00 }
        } else if i < 216 {
            let j = i - 1;
            Color {
                name: None,
                r: 0xff,
                g: cube_level(j % 6),
                b: cube_level((j / 6) % 6),
                a: cube_level(j / 36),
            }
        } else if i < 226 {
            Color { name: None, r: 0xff, g: 0x00, b: 0x00, a: ramp_level(i - 216) }
        } else if i < 236 {
            Color { name: None, r: 0xff, g: 0x00, b: ramp_level(i - 226), a: 0x00 }
        } else if i < 246 {
            Color { name: None, r: 0xff, g: ramp_level(i - 236), b: 0x00, a: 0x00 }
        } else {
            let v = ramp_level(i - 246);
            Color { name: None, r: 0xff, g: v, b: v, a: v }
        };
        p.push(c);
        i = i + 1;
    }
    proof {
        assert(p.deep_view() =~= spec_default_palette());
    }
    p
}

/// The empty document: version 150, no models, the default palette, no
/// materials and an empty scene graph.
pub open spec fn spec_default_voxfile() -> VoxFileView {
    VoxFileView {
        version: 150,
        models: Seq::empty(),
        palette: spec_default_palette(),
        materials: Seq::empty(),
        scenegraph: Seq::empty(),
    }
}

impl Default for VoxFile {
    /// Builds the empty document the assembler starts from.
    fn default() -> (f: VoxFile)
        ensures
            f.deep_view() == spec_default_voxfile(),
            f.well_formed(),
    {
        let f = VoxFile {
            version: 150,
            models: Vec::new(),
            palette: default_palette(),
            materials: Vec::new(),
            scenegraph: Vec::new(),
        };
        proof {
            assert(f.deep_view() =~= spec_default_voxfile());
        }
        f
    }
}

/// Pushing onto a vector appends the element's view to the vector's view.
pub proof fn lemma_deep_view_push<T: DeepView>(u: Vec<T>, v: Vec<T>, x: T)
    requires
        v@ == u@.push(x),
    ensures
        v.deep_view() == u.deep_view().push(x.deep_view()),
{
    assert(v.deep_view().len() == u.deep_view().push(x.deep_view()).len());
    assert(forall|i: int|
        0 <= i < v.deep_view().len() ==> v.deep_view()[i] == u.deep_view().push(x.deep_view())[i]);
    assert(v.deep_view() =~= u.deep_view().push(x.deep_view()));
}

/// Removing the front element drops the front of the vector's view.
pub proof fn lemma_deep_view_remove_front<T: DeepView>(u: Vec<T>, v: Vec<T>)
    requires
        u@.len() > 0,
        v@ == u@.remove(0),
    ensures
        v.deep_view() == u.deep_view().remove(0),
{
    assert(v.deep_view().len() == u.deep_view().remove(0).len());
    assert(forall|i: int|
        0 <= i < v.deep_view().len() ==> v.deep_view()[i] == u.deep_view().remove(0)[i]);
    assert(v.deep_view() =~= u.deep_view().remove(0));
}

/// The view of a `MAIN` chunk wraps the children's views.
pub proof fn lemma_main_view(children: Vec<Chunk>)
    ensures
        (Chunk::MAIN(children)).deep_view() == ChunkView::MAIN(children.deep_view()),
{
    let c = Chunk::MAIN(children);
    reveal_with_fuel(<Chunk as DeepView>::deep_view, 2);
    assert(c.deep_view() is MAIN);
    assert(c.deep_view()->MAIN_0.len() == children.deep_view().len());
    assert(forall|i: int|
        0 <= i < children.deep_view().len() ==> c.deep_view()->MAIN_0[i]
            == children.deep_view()[i]);
    assert(c.deep_view()->MAIN_0 =~= children.deep_view());
}

/// The view of an `Unknown` chunk keeps the tag characters, the raw
/// payload bytes and the children's views.
pub proof fn lemma_unknown_view(kind: String, contents: Vec<u8>, children: Vec<Chunk>)
    ensures
        (Chunk::Unknown { kind, contents, children }).deep_view() == (ChunkView::Unknown {
            kind: kind@,
            contents: contents@,
            children: children.deep_view(),
        }),
{
    let c = Chunk::Unknown { kind, contents, children };
    reveal_with_fuel(<Chunk as DeepView>::deep_view, 2);
    assert(c.deep_view() is Unknown);
    assert(c.deep_view()->Unknown_children.len() == children.deep_view().len());
    assert(forall|i: int|
        0 <= i < children.deep_view().len() ==> c.deep_view()->Unknown_children[i]
            == children.deep_view()[i]);
    assert(c.deep_view()->Unknown_children =~= children.deep_view());
}

} // verus!
