//! GPU-driven shadow pipeline: the decisions behind the render passes.
//!
//! Every pass is split in two. This crate holds what a pass decides and computes:
//! which shadow faces are dirty, which views exist this frame, what bytes are
//! uploaded, which draws are encoded and where in the atlas they land. The
//! renderer around it owns the device and the encoders, and replays the plans
//! that the functions here return.
//!
//! Floating-point data (matrices, planes, colours, light parameters) is carried
//! as IEEE-754 single-precision bit patterns in `u32` words; see [`number`].

use vstd::prelude::*;

pub mod arena;
pub mod atlas;
pub mod bindings;
pub mod bytes;
pub mod cull;
pub mod errors;
pub mod lighting;
pub mod number;
pub mod scene;
pub mod shadow;
pub mod shadow_pass;
pub mod shared;
pub mod views;

pub use cull::CullPass;
pub use lighting::LightingPass;
pub use scene::Scene;
pub use shadow::ShadowAtlasPass;
pub use shadow_pass::ShadowPass;
pub use shared::PipelineShared;
pub use views::GpuView;

verus! {

/// Shadow tile resolution (one cube face / cascade per tile).
pub const TILE_RES: u32 = 512;

/// Tiles per atlas row/column. 16 x 16 = 256 tiles.
pub const ATLAS_TILES_PER_ROW: u32 = 16;

/// Full atlas resolution: 8192 x 8192 texels.
pub const ATLAS_RES: u32 = TILE_RES * ATLAS_TILES_PER_ROW;

/// Maximum shadow faces (tiles).
pub const MAX_SHADOW_FACES: u32 = ATLAS_TILES_PER_ROW * ATLAS_TILES_PER_ROW;

/// [`MAX_SHADOW_FACES`] as the length of a per-face table.
pub const FACE_SLOTS: usize = 256;

/// View 0 is the camera; views `1..=MAX_SHADOW_FACES` are shadow faces.
pub const MAX_VIEWS: u32 = 1 + MAX_SHADOW_FACES;

/// Per-view indirect draw list capacity. Draws beyond this are dropped.
pub const MAX_DRAWS_PER_VIEW: u32 = 4096;

/// Cube faces / matrix slots per shadow caster.
pub const FACES_PER_CASTER: u32 = 6;

/// `GpuView.flags` bit: this view is a shadow face.
pub const VIEW_FLAG_SHADOW: u32 = 1;

/// `GpuView.flags` bit: the view slot is inactive; the cull shader emits no draws for it.
pub const VIEW_FLAG_INACTIVE: u32 = 2;

/// Byte stride between consecutive entries of a per-face uniform table. The offset
/// alignment that a device asks of dynamic uniform offsets is at most 256.
pub const FACE_BUF_STRIDE: u64 = 256;

/// Bytes of one `DrawIndexedIndirect` command.
pub const DRAW_STRIDE: u64 = 20;

/// The dimensions that the shaders and the device share with this crate.
pub proof fn dimensions_are_fixed()
    ensures
        TILE_RES == 512,
        ATLAS_TILES_PER_ROW == 16,
        ATLAS_RES == 8192,
        MAX_SHADOW_FACES == 256,
        FACE_SLOTS == 256,
        MAX_VIEWS == 257,
        MAX_DRAWS_PER_VIEW == 4096,
        FACES_PER_CASTER == 6,
        VIEW_FLAG_SHADOW == 1,
        VIEW_FLAG_INACTIVE == 2,
        FACE_BUF_STRIDE == 256,
        DRAW_STRIDE == 20,
{
}

} // verus!
