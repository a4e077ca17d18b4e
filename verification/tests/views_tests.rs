use glam::{Mat4, Vec3, Vec4};
use helio_pipeline::number;
use helio_pipeline::views::{
    shadow_faces_needed, GpuLight, ViewBuilder, ViewTransform, LIGHT_TYPE_DIRECTIONAL,
    LIGHT_TYPE_POINT, LIGHT_TYPE_SPOT, NO_SHADOW,
};
use helio_pipeline::{GpuView, VIEW_FLAG_INACTIVE, VIEW_FLAG_SHADOW};

fn bits4(v: [f32; 4]) -> [u32; 4] {
    v.map(f32::to_bits)
}

fn perspective(fovy: f32, aspect: f32, near: f32, far: f32) -> Mat4 {
    let f = 1.0 / (fovy * 0.5).tan();
    let nf = 1.0 / (near - far);
    Mat4::from_cols(
        Vec4::new(f / aspect, 0.0, 0.0, 0.0),
        Vec4::new(0.0, f, 0.0, 0.0),
        Vec4::new(0.0, 0.0, far * nf, -1.0),
        Vec4::new(0.0, 0.0, near * far * nf, 0.0),
    )
}

fn look_at(eye: Vec3, center: Vec3, up: Vec3) -> Mat4 {
    let f = (center - eye).normalize();
    let s = f.cross(up).normalize();
    let u = s.cross(f);
    Mat4::from_cols(
        Vec4::new(s.x, u.x, -f.x, 0.0),
        Vec4::new(s.y, u.y, -f.y, 0.0),
        Vec4::new(s.z, u.z, -f.z, 0.0),
        Vec4::new(-s.dot(eye), -u.dot(eye), f.dot(eye), 1.0),
    )
}

fn transform(m: Mat4) -> ViewTransform {
    ViewTransform { view_proj: m.to_cols_array().map(f32::to_bits), planes: [[7; 4]; 6] }
}

fn camera_at_origin() -> ViewTransform {
    let view = look_at(Vec3::ZERO, Vec3::NEG_Z, Vec3::Y);
    let proj = perspective(std::f32::consts::FRAC_PI_2, 1.0, 0.1, 1000.0);
    transform(proj * view)
}

fn faces_of(light: &GpuLight, count: u32) -> Vec<ViewTransform> {
    let pos = Vec3::new(
        f32::from_bits(light.position_range[0]),
        f32::from_bits(light.position_range[1]),
        f32::from_bits(light.position_range[2]),
    );
    let range = f32::from_bits(light.position_range[3]);
    let proj = perspective(std::f32::consts::FRAC_PI_2, 1.0, 0.05, range.max(0.1) * 2.5);
    let dirs_ups: [(Vec3, Vec3); 6] = [
        (Vec3::X, Vec3::NEG_Y),
        (Vec3::NEG_X, Vec3::NEG_Y),
        (Vec3::Y, Vec3::Z),
        (Vec3::NEG_Y, Vec3::NEG_Z),
        (Vec3::Z, Vec3::NEG_Y),
        (Vec3::NEG_Z, Vec3::NEG_Y),
    ];
    let needed = shadow_faces_needed(light, count);
    dirs_ups[..needed]
        .iter()
        .map(|&(dir, up)| transform(proj * look_at(pos, pos + dir, up)))
        .collect()
}

fn light(light_type: u32, shadow_index: u32) -> GpuLight {
    GpuLight {
        position_range: bits4([0.0, 5.0, 0.0, 20.0]),
        direction_outer: bits4([0.0, -1.0, 0.0, 0.5]),
        color_intensity: bits4([1.0, 1.0, 1.0, 100.0]),
        shadow_index,
        light_type,
        inner_angle: 0.6f32.to_bits(),
        _pad: 0,
    }
}

fn build(b: &mut ViewBuilder, lights: &[GpuLight], count: u32) -> u32 {
    let transforms: Vec<Vec<ViewTransform>> = lights.iter().map(|l| faces_of(l, count)).collect();
    b.build(&camera_at_origin(), lights, &transforms, count)
}

fn identity() -> [u32; 16] {
    Mat4::IDENTITY.to_cols_array().map(f32::to_bits)
}

#[test]
fn view_builder_reports_moved_light_faces_changed() {
    let mut l = light(LIGHT_TYPE_POINT, 0);
    let mut b = ViewBuilder::new();
    let count = build(&mut b, std::slice::from_ref(&l), 6);
    assert_eq!(count, 7);
    assert!(b.face_active[..6].iter().all(|&a| a));
    assert!(
        b.face_changed[..6].iter().all(|&d| d),
        "first build: all faces differ from identity"
    );

    // Same inputs -> no change.
    let _ = build(&mut b, std::slice::from_ref(&l), 6);
    assert!(b.face_changed[..6].iter().all(|&d| !d), "unchanged: clean");

    // Move the light -> all 6 faces changed again.
    l.position_range[0] = 3.0f32.to_bits();
    let _ = build(&mut b, std::slice::from_ref(&l), 6);
    assert!(b.face_changed[..6].iter().all(|&d| d), "moved: changed");
}

#[test]
fn view_builder_spot_activates_only_face_zero() {
    let l = light(LIGHT_TYPE_SPOT, 0);
    let mut b = ViewBuilder::new();
    let _ = build(&mut b, std::slice::from_ref(&l), 6);
    assert!(b.face_active[0]);
    assert!(b.face_active[1..6].iter().all(|&a| !a));
    // Inactive views must carry the INACTIVE flag for the cull shader.
    assert_ne!(b.views()[2].flags & VIEW_FLAG_INACTIVE, 0);
    assert_eq!(b.views()[1].flags, VIEW_FLAG_SHADOW);
}

#[test]
fn directional_light_takes_four_slots() {
    let mut b = ViewBuilder::default();
    let _ = build(&mut b, &[light(LIGHT_TYPE_DIRECTIONAL, 6)], 12);
    assert_eq!(b.face_active[..12], [
        false, false, false, false, false, false, true, true, true, true, false, false
    ]);
    assert_eq!(b.face_mats()[0], identity());
    assert_ne!(b.face_mats()[6], identity());
}

#[test]
fn lights_without_room_or_shadow_are_skipped() {
    assert_eq!(shadow_faces_needed(&light(LIGHT_TYPE_POINT, 0), 6), 6);
    assert_eq!(shadow_faces_needed(&light(LIGHT_TYPE_POINT, 1), 6), 0);
    assert_eq!(shadow_faces_needed(&light(LIGHT_TYPE_SPOT, 250), 1000), 1);
    assert_eq!(shadow_faces_needed(&light(LIGHT_TYPE_SPOT, 251), 1000), 0);
    assert_eq!(shadow_faces_needed(&light(LIGHT_TYPE_POINT, NO_SHADOW), 256), 0);
    assert_eq!(shadow_faces_needed(&light(LIGHT_TYPE_POINT, u32::MAX - 1), 256), 0);
    assert_eq!(shadow_faces_needed(&light(3, 0), 6), 0);

    let mut b = ViewBuilder::new();
    let count = build(&mut b, &[light(LIGHT_TYPE_POINT, 1), light(3, 0)], 6);
    assert_eq!(count, 7);
    assert!(b.face_active.iter().all(|&a| !a));
}

#[test]
fn face_range_is_clamped() {
    let mut b = ViewBuilder::new();
    assert_eq!(build(&mut b, &[], 1000), 257);
    assert_eq!(build(&mut b, &[], 0), 1);
    assert_eq!(b.views().len(), 257);
    assert_eq!(b.face_mats().len(), 256);
    assert_eq!(b.views()[0].view_proj, camera_at_origin().view_proj);
    assert_eq!(b.views()[0].flags, 0);
}

#[test]
fn later_light_wins_a_shared_slot() {
    let first = light(LIGHT_TYPE_POINT, 0);
    let mut second = light(LIGHT_TYPE_SPOT, 2);
    second.position_range[0] = 9.0f32.to_bits();
    let mut b = ViewBuilder::new();
    let _ = build(&mut b, &[first, second], 8);
    assert_eq!(b.face_mats()[2], faces_of(&second, 8)[0].view_proj);
    assert_eq!(b.face_mats()[3], faces_of(&first, 8)[3].view_proj);
}

#[test]
fn slots_beyond_the_range_are_inactive() {
    let l = light(LIGHT_TYPE_POINT, 6);
    let mut b = ViewBuilder::new();
    let _ = build(&mut b, std::slice::from_ref(&l), 12);
    assert!(b.face_active[6]);
    let _ = build(&mut b, std::slice::from_ref(&l), 6);
    assert!(b.face_active.iter().all(|&a| !a));
    assert_eq!(b.face_mats()[6], identity());
    assert_ne!(b.views()[7].flags & VIEW_FLAG_INACTIVE, 0);
    let _ = build(&mut b, std::slice::from_ref(&l), 12);
    assert!(b.face_changed[6..12].iter().all(|&c| c));
}

#[test]
fn reactivated_faces_are_changed() {
    let l = light(LIGHT_TYPE_POINT, 0);
    let mut b = ViewBuilder::new();
    let _ = build(&mut b, std::slice::from_ref(&l), 6);
    assert!(b.face_changed[..6].iter().all(|&c| c));
    let _ = build(&mut b, &[], 6);
    assert!((0..6).all(|f| !b.face_active[f] && !b.face_changed[f]));
    let _ = build(&mut b, std::slice::from_ref(&l), 6);
    assert!((0..6).all(|f| b.face_active[f] && b.face_changed[f]));
}

#[test]
fn nan_matrices_always_count_as_changed() {
    let l = light(LIGHT_TYPE_SPOT, 0);
    let mut t = transform(Mat4::IDENTITY);
    t.view_proj[3] = f32::NAN.to_bits();
    let mut b = ViewBuilder::new();
    for _ in 0..2 {
        let _ = b.build(&camera_at_origin(), &[l], &[vec![t]], 6);
        assert!(b.face_changed[0]);
    }
}

#[test]
fn identity_face_is_not_a_change() {
    let l = light(LIGHT_TYPE_SPOT, 0);
    let mut t = transform(Mat4::IDENTITY);
    // Negative zero equals zero.
    t.view_proj[1] = (-0.0f32).to_bits();
    let mut b = ViewBuilder::new();
    let _ = b.build(&camera_at_origin(), &[l], &[vec![t]], 6);
    assert!(b.face_active[0] && !b.face_changed[0]);
}

#[test]
fn inactive_view_is_identity() {
    let v = GpuView::zeroed_inactive();
    assert_eq!(v.view_proj, identity());
    assert_eq!(v.planes, [[0; 4]; 6]);
    assert_eq!(v.flags, 3);
    assert_eq!(v._pad, [0; 3]);
}

#[test]
fn numbers_compare_as_floats() {
    let samples = [
        0.0f32, -0.0, 1.0, -1.0, 0.1, f32::NAN, -f32::NAN, f32::INFINITY, f32::NEG_INFINITY,
        f32::MIN_POSITIVE, 1e-45,
    ];
    for a in samples {
        for b in samples {
            assert_eq!(number::eq_number(a.to_bits(), b.to_bits()), a == b, "{a} {b}");
            assert_eq!(
                number::eq_numbers(&[1, a.to_bits()], &[1, b.to_bits()]),
                a == b
            );
        }
    }
    let v = [0.0f32, 1.0, 2.0, 3.0].map(f32::to_bits);
    assert!(number::eq_xyz(&v, &[-0.0f32, 1.0, 2.0, 9.0].map(f32::to_bits)));
    for k in 0..3 {
        let mut w = v;
        w[k] = 5.0f32.to_bits();
        assert!(!number::eq_xyz(&v, &w));
    }
    assert_eq!(f32::from_bits(number::ONE), 1.0);
    assert_eq!(f32::from_bits(number::ZERO), 0.0);
}
