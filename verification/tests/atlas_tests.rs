use helio_pipeline::atlas::{face_uv_transform, face_viewport};
use helio_pipeline::{ATLAS_RES, ATLAS_TILES_PER_ROW, MAX_SHADOW_FACES, TILE_RES};

fn uv(face: u32) -> [f32; 4] {
    face_uv_transform(face).map(f32::from_bits)
}

#[test]
fn atlas_dimensions_consistent() {
    assert_eq!(ATLAS_RES, TILE_RES * ATLAS_TILES_PER_ROW);
    assert_eq!(MAX_SHADOW_FACES, ATLAS_TILES_PER_ROW * ATLAS_TILES_PER_ROW);
}

#[test]
fn face_zero_is_top_left() {
    assert_eq!(face_viewport(0), (0, 0, TILE_RES, TILE_RES));
    assert_eq!(
        uv(0),
        [
            1.0 / ATLAS_TILES_PER_ROW as f32,
            1.0 / ATLAS_TILES_PER_ROW as f32,
            0.0,
            0.0
        ]
    );
}

#[test]
fn last_face_is_bottom_right() {
    let last = MAX_SHADOW_FACES - 1;
    let (x, y, w, h) = face_viewport(last);
    assert_eq!((x + w, y + h), (ATLAS_RES, ATLAS_RES));
}

#[test]
fn viewports_never_overlap_or_escape() {
    let mut seen = std::collections::HashSet::new();
    for f in 0..MAX_SHADOW_FACES {
        let (x, y, w, h) = face_viewport(f);
        assert!(x + w <= ATLAS_RES && y + h <= ATLAS_RES, "face {f} escapes");
        assert!(seen.insert((x, y)), "face {f} overlaps another tile");
    }
}

#[test]
fn uv_transform_maps_into_tile() {
    for f in [0u32, 1, 15, 16, 17, 255] {
        let [sx, sy, ox, oy] = uv(f);
        let (px, py, _, _) = face_viewport(f);
        // face uv (0,0) -> tile origin in normalized coords
        assert!((ox - px as f32 / ATLAS_RES as f32).abs() < 1e-6);
        assert!((oy - py as f32 / ATLAS_RES as f32).abs() < 1e-6);
        // face uv (1,1) stays inside the atlas
        assert!(sx + ox <= 1.0 + 1e-6 && sy + oy <= 1.0 + 1e-6);
    }
}

#[test]
fn uv_transform_is_exact_for_every_face() {
    let s = 1.0 / ATLAS_TILES_PER_ROW as f32;
    for f in 0..MAX_SHADOW_FACES {
        let tx = (f % ATLAS_TILES_PER_ROW) as f32;
        let ty = (f / ATLAS_TILES_PER_ROW) as f32;
        let expected = [s, s, tx * s, ty * s];
        assert_eq!(uv(f).map(f32::to_bits), expected.map(f32::to_bits));
    }
}

#[test]
fn viewport_of_a_face_in_the_second_row() {
    assert_eq!(face_viewport(17), (512, 512, 512, 512));
    assert_eq!(face_viewport(15), (7680, 0, 512, 512));
}
