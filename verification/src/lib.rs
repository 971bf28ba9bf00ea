//! A verified decoder for the `.vox` chunk-based binary voxel container
//! format.
//!
//! A `.vox` file starts with a 4-byte magic marker and a 32-bit version,
//! followed by a single root `MAIN` chunk.  Every chunk carries a 4-byte
//! ASCII tag, a content length, a children length, its own payload bytes
//! and a nested sequence of child chunks.  [`parser::parse_file`] folds
//! the chunk tree of a byte buffer into a [`types::VoxFile`] document: a
//! list of voxel models, a 256-entry palette, materials and a scene
//! graph.
//!
//! Every decoder is specified against a mathematical grammar of the
//! format (the `spec_parse_*` functions) and verified to return exactly
//! what the grammar says: each chunk consumes exactly the byte span its
//! header declares, malformed input is rejected with the documented
//! error, and no input can cause a panic or an out-of-bounds read.

pub mod chunks;
pub mod error;
pub mod parser;
pub mod primitives;
pub mod roundtrip;
pub mod types;

pub use error::{DotVoxError, DotVoxResult};
pub use parser::{parse_chunk, parse_file, MAX_NESTING_DEPTH};
pub use types::{
    Camera, Chunk, Color, Dict, GroupNode, Layer, Material, MaterialV1, MaterialV2, Model, Pack,
    Rotation, SceneNode, ShapeNode, Size, TransformNode, VoxFile, Voxel,
};
