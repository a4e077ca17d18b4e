use helio_pipeline::bindings::{
    cull_layout, depth_entry, lighting_layout, shadow_atlas_layout, shadow_layout,
    storage_ro_entry, texture_entry, uniform_entry, BindingKind, LayoutEntry, Stage,
};
use helio_pipeline::{
    GpuView, PipelineShared, ATLAS_RES, ATLAS_TILES_PER_ROW, MAX_SHADOW_FACES, MAX_VIEWS, TILE_RES,
};

#[test]
fn gpu_view_matches_wgsl_layout() {
    // mat4x4f (64) + array<vec4f, 6> (96) + flags + 3 x pad (16) = 176 bytes.
    assert_eq!(std::mem::size_of::<GpuView>(), 176);
}

#[test]
fn pipeline_constants_are_consistent() {
    assert_eq!(ATLAS_RES, TILE_RES * ATLAS_TILES_PER_ROW);
    assert_eq!(MAX_VIEWS, 1 + MAX_SHADOW_FACES);
    assert_eq!(MAX_SHADOW_FACES, ATLAS_TILES_PER_ROW * ATLAS_TILES_PER_ROW);
}

#[test]
fn shared_buffers_hold_every_view() {
    let layout = PipelineShared::layout();
    assert_eq!(layout.views_size, 257 * 176);
    assert_eq!(layout.face_mats_size, 256 * 64);
    assert_eq!(layout.culled_indirect_size, 257 * 4096 * 20);
    assert_eq!(layout.view_counts_size, 257 * 4);
    assert_eq!(layout.atlas_res, 8192);
}

#[test]
fn draw_lists_follow_each_other() {
    assert_eq!(PipelineShared::indirect_offset(0), 0);
    assert_eq!(PipelineShared::indirect_offset(1), 81920);
    assert_eq!(PipelineShared::indirect_offset(u32::MAX), 4294967295 * 81920);
    assert_eq!(PipelineShared::count_offset(3), 12);
}

#[test]
fn new_shared_state_is_idle() {
    let shared = PipelineShared::new(true);
    assert!(shared.supports_multi_draw_count);
    assert_eq!((shared.view_count, shared.face_count, shared.draw_count), (1, 0, 0));
    assert!(!shared.atlas_initialized);
    assert!(shared.face_active.iter().all(|&a| !a));
    assert!(shared.face_dirty.iter().all(|&d| !d));
    assert!(shared.face_rendered_once.iter().all(|&r| !r));
}

#[test]
fn layouts_number_their_bindings() {
    for layout in [cull_layout(), shadow_atlas_layout(), shadow_layout(), lighting_layout()] {
        for (i, entry) in layout.iter().enumerate() {
            assert_eq!(entry.binding as usize, i);
        }
    }
    assert_eq!(cull_layout().len(), 7);
    assert_eq!(cull_layout()[3].kind, BindingKind::StorageReadWrite);
    assert_eq!(cull_layout()[5].kind, BindingKind::Uniform);
    assert_eq!(shadow_atlas_layout()[2].kind, BindingKind::UniformDynamicSized(16));
    assert_eq!(shadow_layout()[2].kind, BindingKind::UniformDynamic);
    assert_eq!(lighting_layout().len(), 11);
    assert_eq!(lighting_layout()[10].kind, BindingKind::ComparisonSampler);
}

#[test]
fn fragment_entries_have_their_kind() {
    let stage = Stage::Fragment;
    assert_eq!(uniform_entry(7), LayoutEntry { binding: 7, stage, kind: BindingKind::Uniform });
    assert_eq!(
        storage_ro_entry(1),
        LayoutEntry { binding: 1, stage, kind: BindingKind::StorageReadOnly }
    );
    assert_eq!(texture_entry(2), LayoutEntry { binding: 2, stage, kind: BindingKind::Texture });
    assert_eq!(depth_entry(3), LayoutEntry { binding: 3, stage, kind: BindingKind::DepthTexture });
}
