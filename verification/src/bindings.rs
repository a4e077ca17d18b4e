//! Bind group layouts of the passes.

use vstd::prelude::*;

verus! {

/// The shader stage that sees a binding.
#[derive(Clone, Copy, Debug, PartialEq, Eq, Structural)]
pub enum Stage {
    Vertex,
    Fragment,
    Compute,
}

/// What is bound.
#[derive(Clone, Copy, Debug, PartialEq, Eq, Structural)]
pub enum BindingKind {
    Uniform,
    /// A uniform buffer whose offset is chosen when it is bound.
    UniformDynamic,
    /// The same, with the least number of bytes that a binding must provide.
    UniformDynamicSized(u64),
    StorageReadOnly,
    StorageReadWrite,
    /// A 2D texture that is loaded, not filtered.
    Texture,
    /// A 2D depth texture.
    DepthTexture,
    ComparisonSampler,
}

/// One entry of a bind group layout.
#[derive(Clone, Copy, Debug, PartialEq, Eq, Structural)]
pub struct LayoutEntry {
    pub binding: u32,
    pub stage: Stage,
    pub kind: BindingKind,
}

/// Entry `binding` of a layout.
pub open spec fn entry(binding: u32, stage: Stage, kind: BindingKind) -> LayoutEntry {
    LayoutEntry { binding, stage, kind }
}

/// A uniform buffer of the fragment stage.
pub fn uniform_entry(binding: u32) -> (e: LayoutEntry)
    ensures
        e == entry(binding, Stage::Fragment, BindingKind::Uniform),
{
    LayoutEntry { binding, stage: Stage::Fragment, kind: BindingKind::Uniform }
}

/// A read-only storage buffer of the fragment stage.
pub fn storage_ro_entry(binding: u32) -> (e: LayoutEntry)
    ensures
        e == entry(binding, Stage::Fragment, BindingKind::StorageReadOnly),
{
    LayoutEntry { binding, stage: Stage::Fragment, kind: BindingKind::StorageReadOnly }
}

/// A texture of the fragment stage.
pub fn texture_entry(binding: u32) -> (e: LayoutEntry)
    ensures
        e == entry(binding, Stage::Fragment, BindingKind::Texture),
{
    LayoutEntry { binding, stage: Stage::Fragment, kind: BindingKind::Texture }
}

/// A depth texture of the fragment stage.
pub fn depth_entry(binding: u32) -> (e: LayoutEntry)
    ensures
        e == entry(binding, Stage::Fragment, BindingKind::DepthTexture),
{
    LayoutEntry { binding, stage: Stage::Fragment, kind: BindingKind::DepthTexture }
}

/// The layout of the culling pass: draw calls, instances, views, culled draws, draw
/// counters, parameters, visibility.
pub fn cull_layout() -> (entries: Vec<LayoutEntry>)
    ensures
        entries@ == seq![
            entry(0, Stage::Compute, BindingKind::StorageReadOnly),
            entry(1, Stage::Compute, BindingKind::StorageReadOnly),
            entry(2, Stage::Compute, BindingKind::StorageReadOnly),
            entry(3, Stage::Compute, BindingKind::StorageReadWrite),
            entry(4, Stage::Compute, BindingKind::StorageReadWrite),
            entry(5, Stage::Compute, BindingKind::Uniform),
            entry(6, Stage::Compute, BindingKind::StorageReadOnly),
        ],
{
    let stage: Stage = Stage::Compute;
    let ro: BindingKind = BindingKind::StorageReadOnly;
    let rw: BindingKind = BindingKind::StorageReadWrite;
    let mut entries: Vec<LayoutEntry> = Vec::new();
    entries.push(LayoutEntry { binding: 0, stage, kind: ro });
    entries.push(LayoutEntry { binding: 1, stage, kind: ro });
    entries.push(LayoutEntry { binding: 2, stage, kind: ro });
    entries.push(LayoutEntry { binding: 3, stage, kind: rw });
    entries.push(LayoutEntry { binding: 4, stage, kind: rw });
    entries.push(LayoutEntry { binding: 5, stage, kind: BindingKind::Uniform });
    entries.push(LayoutEntry { binding: 6, stage, kind: ro });
    entries
}

/// The layout of the atlas pass: views, instances, and the face's entry in the
/// view-index table, of which 16 bytes are bound.
pub fn shadow_atlas_layout() -> (entries: Vec<LayoutEntry>)
    ensures
        entries@ == seq![
            entry(0, Stage::Vertex, BindingKind::StorageReadOnly),
            entry(1, Stage::Vertex, BindingKind::StorageReadOnly),
            entry(2, Stage::Vertex, BindingKind::UniformDynamicSized(16)),
        ],
{
    let stage: Stage = Stage::Vertex;
    let mut entries: Vec<LayoutEntry> = Vec::new();
    entries.push(LayoutEntry { binding: 0, stage, kind: BindingKind::StorageReadOnly });
    entries.push(LayoutEntry { binding: 1, stage, kind: BindingKind::StorageReadOnly });
    entries.push(LayoutEntry { binding: 2, stage, kind: BindingKind::UniformDynamicSized(16) });
    entries
}

/// The layout of the texture-array shadow pass: shadow matrices, instances, and the
/// face's entry in the face-index table.
pub fn shadow_layout() -> (entries: Vec<LayoutEntry>)
    ensures
        entries@ == seq![
            entry(0, Stage::Vertex, BindingKind::StorageReadOnly),
            entry(1, Stage::Vertex, BindingKind::StorageReadOnly),
            entry(2, Stage::Vertex, BindingKind::UniformDynamic),
        ],
{
    let stage: Stage = Stage::Vertex;
    let mut entries: Vec<LayoutEntry> = Vec::new();
    entries.push(LayoutEntry { binding: 0, stage, kind: BindingKind::StorageReadOnly });
    entries.push(LayoutEntry { binding: 1, stage, kind: BindingKind::StorageReadOnly });
    entries.push(LayoutEntry { binding: 2, stage, kind: BindingKind::UniformDynamic });
    entries
}

/// The layout of the lighting pass: camera, globals, lights, face matrices, the four
/// G-buffer textures, scene depth, shadow atlas, comparison sampler.
pub fn lighting_layout() -> (entries: Vec<LayoutEntry>)
    ensures
        entries@ == seq![
            entry(0, Stage::Fragment, BindingKind::Uniform),
            entry(1, Stage::Fragment, BindingKind::Uniform),
            entry(2, Stage::Fragment, BindingKind::StorageReadOnly),
            entry(3, Stage::Fragment, BindingKind::StorageReadOnly),
            entry(4, Stage::Fragment, BindingKind::Texture),
            entry(5, Stage::Fragment, BindingKind::Texture),
            entry(6, Stage::Fragment, BindingKind::Texture),
            entry(7, Stage::Fragment, BindingKind::Texture),
            entry(8, Stage::Fragment, BindingKind::DepthTexture),
            entry(9, Stage::Fragment, BindingKind::DepthTexture),
            entry(10, Stage::Fragment, BindingKind::ComparisonSampler),
        ],
{
    let mut entries: Vec<LayoutEntry> = Vec::new();
    entries.push(uniform_entry(0));
    entries.push(uniform_entry(1));
    entries.push(storage_ro_entry(2));
    entries.push(storage_ro_entry(3));
    entries.push(texture_entry(4));
    entries.push(texture_entry(5));
    entries.push(texture_entry(6));
    entries.push(texture_entry(7));
    entries.push(depth_entry(8));
    entries.push(depth_entry(9));
    entries.push(
        LayoutEntry { binding: 10, stage: Stage::Fragment, kind: BindingKind::ComparisonSampler },
    );
    entries
}

/// An entry is described by its binding, its stage and its kind, each as given.
pub proof fn entries_keep_what_they_are_given(binding: u32, stage: Stage, kind: BindingKind)
    ensures
        entry(binding, stage, kind).binding == binding,
        entry(binding, stage, kind).stage == stage,
        entry(binding, stage, kind).kind == kind,
{
}

} // verus!
