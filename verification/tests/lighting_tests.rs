use helio_pipeline::errors::PassError;
use helio_pipeline::lighting::{
    background, ClearColor, LightingBindings, LightingFrame, SceneColors, TargetLoad,
};
use helio_pipeline::LightingPass;

const KEY: LightingBindings =
    LightingBindings { albedo_ptr: 1, depth_ptr: 2, lights_ptr: 3, lights_size: 4 };

fn words(bytes: &[u8]) -> Vec<u32> {
    bytes.chunks(4).map(|c| u32::from_ne_bytes([c[0], c[1], c[2], c[3]])).collect()
}

fn frame() -> LightingFrame {
    LightingFrame {
        scene: None,
        csm_splits: [16.0f32, 80.0, 300.0, 1400.0].map(f32::to_bits),
        movable_light_count: 12,
        frame_num: 0x1_0000_0007,
        has_sky: true,
    }
}

#[test]
fn globals_fall_back_to_a_dim_void() {
    let mut pass = LightingPass::new();
    let w = words(&pass.prepare(&frame()));
    assert_eq!(w[..4], [0.1f32, 0.1, 0.15, 0.1].map(f32::to_bits));
    assert_eq!(w[4..8], [16.0f32, 80.0, 300.0, 1400.0].map(f32::to_bits));
    assert_eq!(w[8..12], [0; 4]);
    assert_eq!(w[12..], [12, 7, 1, 0]);
    assert_eq!(pass.clear_color, Some([0.02f32, 0.02, 0.03, 1.0].map(f32::to_bits)));
}

#[test]
fn globals_follow_the_scene() {
    let mut pass = LightingPass::new();
    let mut f = frame();
    f.has_sky = false;
    f.scene = Some(SceneColors {
        ambient_color: [1, 2, 3],
        ambient_intensity: 4,
        clear_color: [5, 6, 7, 8],
    });
    let w = words(&pass.prepare(&f));
    assert_eq!(w[..4], [1, 2, 3, 4]);
    assert_eq!(w[14], 0);
    let plan = pass.execute(true, false, false, KEY).unwrap();
    assert!(plan.rebuild_bind_group && plan.own_target);
    assert!(matches!(plan.load, TargetLoad::Clear(Some([5, 6, 7, 8]))));
    let plan = pass.execute(true, true, true, KEY).unwrap();
    assert!(!plan.rebuild_bind_group && !plan.own_target);
    assert!(matches!(plan.load, TargetLoad::Load));
}

#[test]
fn missing_gbuffer_is_an_error() {
    let mut pass = LightingPass::new();
    match pass.execute(false, false, false, KEY) {
        Err(PassError::InvalidPassConfig(text)) => {
            assert_eq!(text, "PipelineLighting requires frame.gbuffer")
        }
        _ => panic!("the G-buffer is missing"),
    }
    assert!(pass.bind_group_key.is_none());
    assert!(matches!(pass.execute(true, false, false, KEY).unwrap().load, TargetLoad::Clear(None)));
}

#[test]
fn target_has_at_least_one_texel() {
    assert_eq!(LightingPass::target_size(0, 0), (1, 1));
    assert_eq!(LightingPass::target_size(640, 480), (640, 480));
}

#[test]
fn own_target_is_published_when_none_is() {
    let pass = LightingPass::new();
    assert!(pass.publish(false));
    assert!(!pass.publish(true));
}

#[test]
fn background_is_built_in_until_a_frame_sets_it() {
    let mut pass = LightingPass::new();
    match background(pass.clear_color) {
        ClearColor::BuiltIn(bits) => assert_eq!(bits.map(f64::from_bits), [0.02, 0.02, 0.03, 1.0]),
        ClearColor::Frame(_) => panic!("no frame was prepared"),
    }
    let mut f = frame();
    f.scene = Some(SceneColors {
        ambient_color: [1, 2, 3],
        ambient_intensity: 4,
        clear_color: [5, 6, 7, 8],
    });
    pass.prepare(&f);
    assert!(matches!(background(pass.clear_color), ClearColor::Frame([5, 6, 7, 8])));
}
