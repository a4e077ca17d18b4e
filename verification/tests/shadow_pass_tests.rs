use helio_pipeline::errors::PassError;
use helio_pipeline::shadow_pass::{DynamicWork, ShadowBindings, ShadowFrame, ShadowPlan};
use helio_pipeline::ShadowPass;

const BINDINGS: ShadowBindings = ShadowBindings { shadow_matrices_ptr: 1, instances_ptr: 2 };

fn frame(gens: &[u64; 42], shadow_count: u32) -> ShadowFrame<'_> {
    ShadowFrame {
        shadow_count,
        static_draw_count: 4,
        movable_draw_count: 9,
        static_objects_generation: 1,
        movable_objects_generation: 1,
        per_caster_dirty_gen: gens,
        has_main_scene: true,
        bindings: BINDINGS,
    }
}

fn run(pass: &mut ShadowPass, f: &ShadowFrame<'_>) -> Option<ShadowPlan> {
    pass.execute(f).unwrap()
}

fn light_faces(plan: &ShadowPlan) -> Vec<u32> {
    plan.dynamic_faces
        .iter()
        .filter(|d| matches!(d.work, DynamicWork::LightDirty))
        .map(|d| d.face)
        .collect()
}

#[test]
fn first_frame_renders_both_atlases() {
    let gens = [0u64; 42];
    let mut pass = ShadowPass::new(true);
    let plan = run(&mut pass, &frame(&gens, 12)).unwrap();
    assert!(plan.rebuild_bind_group);
    assert_eq!(plan.static_faces.len(), 12);
    assert_eq!(plan.static_faces[3].dyn_offset, 768);
    assert_eq!(plan.static_faces[3].draws, 4);
    assert_eq!(plan.dynamic_faces.len(), 12);
    match plan.dynamic_faces[5].work {
        DynamicWork::ObjectDirty { clear_offset, count_offset } => {
            assert_eq!((clear_offset, count_offset), (80, 20))
        }
        _ => panic!("the objects moved"),
    }
    assert_eq!(plan.dynamic_faces[5].draws, 9);
    // Nothing changed: nothing is rendered.
    assert!(run(&mut pass, &frame(&gens, 12)).is_none());
}

#[test]
fn devices_without_counts_fall_back() {
    let gens = [0u64; 42];
    let mut pass = ShadowPass::new(false);
    let plan = run(&mut pass, &frame(&gens, 6)).unwrap();
    assert!(plan.dynamic_faces.iter().all(|d| matches!(d.work, DynamicWork::ObjectDirtyFallback)));
}

#[test]
fn moved_light_spreads_over_six_frames() {
    let mut gens = [0u64; 42];
    let mut pass = ShadowPass::new(true);
    assert!(run(&mut pass, &frame(&gens, 12)).is_some());
    gens[1] = 5;
    for k in 0..6 {
        let plan = run(&mut pass, &frame(&gens, 12)).unwrap();
        assert_eq!(light_faces(&plan), vec![6 + k]);
        assert_eq!(plan.static_faces.len(), 1);
        assert_eq!(plan.static_faces[0].face, 6 + k);
        assert_eq!(plan.dynamic_faces.len(), 1);
    }
    assert!(run(&mut pass, &frame(&gens, 12)).is_none());
    assert_eq!(pass.caster_rr_cursor[1], 0);
}

#[test]
fn dragged_light_cycles_its_faces() {
    let mut gens = [0u64; 42];
    let mut pass = ShadowPass::new(true);
    assert!(run(&mut pass, &frame(&gens, 6)).is_some());
    pass.caster_rr_cursor[0] = 4;
    let mut seen = Vec::new();
    for k in 1..=6 {
        gens[0] = k;
        seen.extend(light_faces(&run(&mut pass, &frame(&gens, 6)).unwrap()));
    }
    assert_eq!(seen, vec![4, 5, 0, 1, 2, 3]);
}

#[test]
fn irregular_motion_leaves_no_face_behind() {
    let mut gens = [0u64; 42];
    let mut pass = ShadowPass::new(true);
    assert!(run(&mut pass, &frame(&gens, 6)).is_some());
    // The light moves in some frames and rests in others.
    let motion = [1u64, 1, 2, 2, 2, 3, 4, 4, 4, 4, 5, 5];
    let mut seen = Vec::new();
    for (i, g) in motion.iter().enumerate() {
        gens[0] = *g;
        seen.extend(light_faces(&run(&mut pass, &frame(&gens, 6)).unwrap()));
        if i >= 5 {
            let recent = &motion[i - 5..=i];
            assert!(pass.face_light_gen[..6].iter().all(|l| recent.contains(l)));
        }
    }
    assert_eq!(seen, vec![0, 1, 2, 3, 4, 5, 0, 1, 2, 3, 4, 5]);
}

#[test]
fn without_static_draws_only_topology_changes_clear() {
    let mut gens = [0u64; 42];
    let mut pass = ShadowPass::new(true);
    let mut f = frame(&gens, 6);
    f.static_draw_count = 0;
    let plan = run(&mut pass, &f).unwrap();
    assert_eq!(plan.static_faces.len(), 6);
    assert!(plan.static_faces.iter().all(|s| s.draws == 0));
    gens[0] = 1;
    let mut f = frame(&gens, 6);
    f.static_draw_count = 0;
    let plan = run(&mut pass, &f).unwrap();
    assert!(plan.static_faces.is_empty());
    assert_eq!(light_faces(&plan), vec![0]);
}

#[test]
fn changed_topology_renders_only_the_static_atlas() {
    let gens = [0u64; 42];
    let mut pass = ShadowPass::new(true);
    assert!(run(&mut pass, &frame(&gens, 6)).is_some());
    let mut f = frame(&gens, 6);
    f.static_objects_generation = 2;
    let plan = run(&mut pass, &f).unwrap();
    assert_eq!(plan.static_faces.len(), 6);
    assert!(plan.dynamic_faces.is_empty());
    assert!(!plan.rebuild_bind_group);
    // The shadow count counts as topology.
    f.shadow_count = 300;
    let plan = run(&mut pass, &f).unwrap();
    assert_eq!(plan.static_faces.len(), 256);
    assert_eq!(pass.last_rendered_shadow_count, 300);
}

#[test]
fn no_faces_empty_the_caches() {
    let gens = [7u64; 42];
    let mut pass = ShadowPass::new(true);
    assert!(run(&mut pass, &frame(&gens, 6)).is_some());
    assert_eq!(pass.face_light_gen[0], 7);
    assert!(run(&mut pass, &frame(&gens, 0)).is_none());
    assert_eq!(pass.face_light_gen[0], 0);
    assert_eq!(pass.caster_rr_cursor[0], 0);
    assert_eq!(pass.static_atlas_cache_gen, None);
    assert_eq!(pass.last_movable_objects_gen, u64::MAX);
    assert_eq!(pass.last_rendered_shadow_count, 0);
}

#[test]
fn missing_scene_is_an_error_and_loses_no_face() {
    let mut gens = [0u64; 42];
    gens[0] = 1;
    let mut pass = ShadowPass::new(true);
    let mut f = frame(&gens, 6);
    f.static_objects_generation = 0;
    f.movable_objects_generation = 0;
    f.has_main_scene = false;
    match pass.execute(&f) {
        Err(PassError::InvalidPassConfig(text)) => {
            assert_eq!(text, "ShadowPass requires main_scene")
        }
        _ => panic!("the scene is missing"),
    }
    assert_eq!(pass.face_light_gen, [0u64; 256]);
    assert_eq!(pass.caster_rr_cursor, [0u8; 42]);
    assert_eq!(pass.static_atlas_cache_gen, None);
    f.has_main_scene = true;
    let mut seen = Vec::new();
    for k in 0..6 {
        let plan = run(&mut pass, &f).unwrap();
        assert_eq!(plan.refresh_static, k == 0);
        seen.extend(light_faces(&plan));
    }
    assert_eq!(seen, vec![0, 1, 2, 3, 4, 5]);
    assert!(run(&mut pass, &f).is_none());
}

#[test]
fn tables_hold_faces_and_clear_commands() {
    let table = ShadowPass::face_index_table();
    assert_eq!(table.len(), 256 * 256);
    assert_eq!(table[255 * 256..255 * 256 + 4], 255u32.to_ne_bytes());
    assert_eq!(table[255 * 256 + 4], 0);
    let commands = ShadowPass::clear_command_table();
    assert_eq!(commands.len(), 256 * 16);
    for c in commands.chunks(16) {
        assert_eq!(c[..4], 3u32.to_ne_bytes());
        assert_eq!(c[4..8], 1u32.to_ne_bytes());
        assert_eq!(c[8..], [0u8; 8]);
    }
}
