use helio_pipeline::cull::{shadow_face_count, CullBindings, CullFrame};
use helio_pipeline::views::{GpuLight, ViewTransform, LIGHT_TYPE_POINT};
use helio_pipeline::{CullPass, PipelineShared};

fn camera() -> ViewTransform {
    ViewTransform { view_proj: [11; 16], planes: [[12; 4]; 6] }
}

fn point_light() -> GpuLight {
    GpuLight {
        position_range: [0; 4],
        direction_outer: [0; 4],
        color_intensity: [0; 4],
        shadow_index: 0,
        light_type: LIGHT_TYPE_POINT,
        inner_angle: 0,
        _pad: 0,
    }
}

fn faces(seed: u32) -> Vec<ViewTransform> {
    (0..6).map(|i| ViewTransform { view_proj: [seed + i; 16], planes: [[i; 4]; 6] }).collect()
}

fn words(bytes: &[u8]) -> Vec<u32> {
    bytes.chunks(4).map(|c| u32::from_ne_bytes([c[0], c[1], c[2], c[3]])).collect()
}

fn key(ptr: usize) -> CullBindings {
    CullBindings {
        draw_calls_ptr: ptr,
        draw_calls_size: 1,
        instances_ptr: 2,
        instances_size: 3,
        visibility_ptr: 4,
        visibility_size: 5,
    }
}

#[test]
fn prepare_uploads_the_views_in_use() {
    let mut pass = CullPass::new();
    let mut shared = PipelineShared::new(true);
    let lights = [point_light()];
    let transforms = [faces(100)];
    let frame = CullFrame {
        camera: camera(),
        lights: &lights,
        transforms: &transforms,
        shadow_matrix_count: 6,
        draw_call_count: 3,
        camera_generation: 0,
        movable_lights_generation: 0,
        movable_objects_generation: 0,
    };
    let uploads = pass.prepare(&mut shared, &frame);
    assert_eq!((shared.view_count, shared.face_count, shared.draw_count), (7, 6, 3));
    assert!(shared.face_active[..6].iter().all(|&a| a));
    assert!(shared.face_dirty[..6].iter().all(|&d| d));

    let views = words(&uploads.views.unwrap());
    assert_eq!(views.len(), 7 * 44);
    assert_eq!(views[..16], [11; 16]);
    assert_eq!(views[16..40], [12; 24]);
    assert_eq!(views[40..44], [0; 4]);
    // View 3 shows face 2.
    assert_eq!(views[3 * 44..3 * 44 + 16], [102; 16]);
    assert_eq!(views[3 * 44 + 16..3 * 44 + 40], [2; 24]);
    assert_eq!(views[3 * 44 + 40], 1);

    let mats = words(&uploads.face_mats.unwrap());
    assert_eq!(mats.len(), 6 * 16);
    assert_eq!(mats[5 * 16..], [105; 16]);
    assert_eq!(words(&uploads.params), vec![3, 7, 1, 4096]);
    assert_eq!(uploads.view_counts, vec![0u8; 28]);
    assert!(!uploads.warn_overflow);
}

#[test]
fn prepare_without_faces_uploads_no_matrices() {
    let mut pass = CullPass::new();
    let mut shared = PipelineShared::new(false);
    let frame = CullFrame {
        camera: camera(),
        lights: &[],
        transforms: &[],
        shadow_matrix_count: 0,
        draw_call_count: 0,
        camera_generation: 0,
        movable_lights_generation: 0,
        movable_objects_generation: 0,
    };
    let uploads = pass.prepare(&mut shared, &frame);
    assert!(uploads.face_mats.is_none());
    assert_eq!(words(&uploads.params), vec![0, 1, 0, 4096]);
    assert_eq!(uploads.views.unwrap().len(), 176);
}

#[test]
fn overflow_is_reported_once() {
    let mut pass = CullPass::new();
    let mut shared = PipelineShared::new(false);
    let mut frame = CullFrame {
        camera: camera(),
        lights: &[],
        transforms: &[],
        shadow_matrix_count: 0,
        draw_call_count: 4096,
        camera_generation: 0,
        movable_lights_generation: 0,
        movable_objects_generation: 0,
    };
    assert!(!pass.prepare(&mut shared, &frame).warn_overflow);
    frame.draw_call_count = 4097;
    assert!(pass.prepare(&mut shared, &frame).warn_overflow);
    assert!(!pass.prepare(&mut shared, &frame).warn_overflow);
}

#[test]
fn face_count_is_clamped_to_the_atlas() {
    assert_eq!(shadow_face_count(0), 0);
    assert_eq!(shadow_face_count(256), 256);
    assert_eq!(shadow_face_count(257), 256);
}

#[test]
fn dispatch_rounds_up_to_workgroups() {
    let mut pass = CullPass::new();
    let mut shared = PipelineShared::new(true);
    shared.view_count = 7;
    assert!(pass.execute(&shared, key(1)).is_none());
    shared.draw_count = 64;
    let d = pass.execute(&shared, key(1)).unwrap();
    assert_eq!(d.workgroups, (1, 7, 1));
    assert!(d.rebuild_bind_group);
    shared.draw_count = 65;
    let d = pass.execute(&shared, key(1)).unwrap();
    assert_eq!(d.workgroups, (2, 7, 1));
    assert!(!d.rebuild_bind_group);
    shared.draw_count = u32::MAX;
    let d = pass.execute(&shared, key(9)).unwrap();
    assert_eq!(d.workgroups, (67108864, 7, 1));
    assert!(d.rebuild_bind_group);
    shared.view_count = 0;
    assert!(pass.execute(&shared, key(1)).is_none());
}

#[test]
fn views_are_uploaded_again_on_change_only() {
    let mut pass = CullPass::new();
    let mut shared = PipelineShared::new(false);
    let mut frame = CullFrame {
        camera: camera(),
        lights: &[],
        transforms: &[],
        shadow_matrix_count: 0,
        draw_call_count: 1,
        camera_generation: 0,
        movable_lights_generation: 0,
        movable_objects_generation: 0,
    };
    assert!(pass.prepare(&mut shared, &frame).views.is_some());
    for change in 0..4 {
        assert!(pass.prepare(&mut shared, &frame).views.is_none());
        match change {
            0 => frame.camera_generation = 1,
            1 => frame.movable_lights_generation = 1,
            2 => frame.movable_objects_generation = 1,
            _ => frame.draw_call_count = 2,
        }
        assert_eq!(pass.prepare(&mut shared, &frame).views.unwrap().len(), 176);
    }
    // The other uploads are made in every frame.
    let uploads = pass.prepare(&mut shared, &frame);
    assert!(uploads.views.is_none());
    assert_eq!(words(&uploads.params), vec![2, 1, 0, 4096]);
    assert_eq!(uploads.view_counts, vec![0u8; 4]);
}
