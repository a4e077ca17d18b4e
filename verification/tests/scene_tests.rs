use helio_pipeline::arena::{LightId, Movability};
use helio_pipeline::errors::SceneError;
use helio_pipeline::scene::move_is_refused;
use helio_pipeline::views::GpuLight;
use helio_pipeline::Scene;

fn light(x: f32) -> GpuLight {
    GpuLight {
        position_range: [x, 0.0, 0.0, 10.0].map(f32::to_bits),
        direction_outer: [0.0f32, -1.0, 0.0, 0.5].map(f32::to_bits),
        color_intensity: [1.0f32, 1.0, 1.0, 100.0].map(f32::to_bits),
        shadow_index: 0,
        light_type: 1,
        inner_angle: 0,
        _pad: 0,
    }
}

fn x_of(l: &GpuLight) -> f32 {
    f32::from_bits(l.position_range[0])
}

fn record(scene: &Scene, id: LightId) -> GpuLight {
    scene.lights.records[scene.lights.index_of(id).unwrap()].gpu
}

/// What a rebuild leaves behind when every light is movable.
fn rebuilt(scene: &mut Scene) {
    scene.gpu_lights = scene.lights.records.iter().map(|r| r.gpu).collect();
    for (i, l) in scene.gpu_lights.iter_mut().enumerate() {
        l.shadow_index = 6 * i as u32;
    }
    scene.movable_slot_of = (0..scene.gpu_lights.len() as u32).collect();
    scene.light_set_dirty = false;
}

#[test]
fn inserted_lights_are_movable_by_default() {
    let mut scene = Scene::new();
    let id = scene.insert_light(light(1.0));
    assert!(scene.light_set_dirty && !scene.bake_invalidated);
    assert_eq!(scene.lights.records[0].movability, Movability::Movable);
    assert_eq!(scene.lights.records[0].user_tag, 0);
    assert_eq!(scene.gpu_lights.len(), 1);
    assert_eq!(scene.lights.index_of(id), Some(0));
}

#[test]
fn baked_lights_invalidate_the_bake() {
    for m in [Movability::Static, Movability::Stationary] {
        let mut scene = Scene::new();
        scene.insert_light_with_movability(light(1.0), Some(m), 42);
        assert!(scene.bake_invalidated);
        assert_eq!(scene.lights.records[0].movability, m);
        assert_eq!(scene.lights.records[0].user_tag, 42);
        assert!(!m.can_move());
    }
    let mut scene = Scene::new();
    scene.insert_light_with_movability(light(1.0), None, 0);
    assert!(!scene.bake_invalidated);
}

#[test]
fn removal_moves_the_last_light() {
    let mut scene = Scene::new();
    let a = scene.insert_light(light(1.0));
    let b = scene.insert_light(light(2.0));
    let c = scene.insert_light(light(3.0));
    rebuilt(&mut scene);
    assert!(scene.remove_light(a).is_ok());
    assert!(scene.light_set_dirty);
    assert_eq!(scene.lights.index_of(c), Some(0));
    assert_eq!(scene.lights.index_of(b), Some(1));
    assert_eq!(x_of(&record(&scene, b)), 2.0);
    assert_eq!(x_of(&record(&scene, c)), 3.0);
    let mirror: Vec<f32> = scene.gpu_lights.iter().map(x_of).collect();
    assert_eq!(mirror, vec![3.0, 2.0]);
}

#[test]
fn removal_takes_the_lights_own_slot() {
    let mut scene = Scene::new();
    let baked = scene.insert_light_with_movability(light(9.0), Some(Movability::Static), 0);
    let a = scene.insert_light(light(1.0));
    let b = scene.insert_light(light(2.0));
    let c = scene.insert_light(light(3.0));
    // A rebuild that leaves the baked light out.
    scene.gpu_lights = vec![light(1.0), light(2.0), light(3.0)];
    scene.movable_slot_of = vec![u32::MAX, 0, 1, 2];
    scene.light_set_dirty = false;
    let d = scene.insert_light(light(4.0));
    assert_eq!(scene.movable_slot_of, vec![u32::MAX, 0, 1, 2, 3]);
    assert!(scene.remove_light(a).is_ok());
    let mirror = |s: &Scene| -> Vec<f32> { s.gpu_lights.iter().map(x_of).collect() };
    assert_eq!(mirror(&scene), vec![4.0, 2.0, 3.0]);
    assert_eq!(scene.movable_slot_of, vec![u32::MAX, 0, 1, 2]);
    // A light without a copy leaves the buffer alone.
    assert!(scene.remove_light(baked).is_ok());
    assert_eq!(mirror(&scene), vec![4.0, 2.0, 3.0]);
    assert_eq!(scene.movable_slot_of, vec![2, 0, 1]);
    assert!(scene.remove_light(b).is_ok());
    assert_eq!(mirror(&scene), vec![4.0, 3.0]);
    assert!(scene.remove_light(c).is_ok());
    assert_eq!(mirror(&scene), vec![4.0]);
    assert!(scene.remove_light(d).is_ok());
    assert!(mirror(&scene).is_empty() && scene.movable_slot_of.is_empty());
}

#[test]
fn removal_before_the_first_rebuild_goes_by_place() {
    let mut scene = Scene::new();
    scene.insert_light(light(1.0));
    let b = scene.insert_light(light(2.0));
    scene.insert_light(light(3.0));
    assert!(scene.remove_light(b).is_ok());
    let mirror: Vec<f32> = scene.gpu_lights.iter().map(x_of).collect();
    assert_eq!(mirror, vec![1.0, 3.0]);
    assert!(scene.movable_slot_of.is_empty());
}

#[test]
fn removed_handles_are_invalid_for_good() {
    let mut scene = Scene::new();
    let a = scene.insert_light(light(1.0));
    assert!(scene.remove_light(a).is_ok());
    let b = scene.insert_light(light(2.0));
    assert_ne!(a, b);
    match scene.remove_light(a) {
        Err(SceneError::InvalidHandle(resource)) => assert_eq!(resource, "light"),
        Ok(()) => panic!("the handle is stale"),
    }
    match scene.update_light(a, light(9.0)) {
        Err(SceneError::InvalidHandle(resource)) => assert_eq!(resource, "light"),
        Ok(()) => panic!("the handle is stale"),
    }
    assert_eq!(x_of(&record(&scene, b)), 2.0);
    let foreign = LightId { slot: 99, generation: 0 };
    assert!(scene.remove_light(foreign).is_err());
}

#[test]
fn moved_light_is_patched_in_place() {
    let mut scene = Scene::new();
    scene.insert_light(light(1.0));
    let b = scene.insert_light(light(2.0));
    rebuilt(&mut scene);
    let before = scene.movable_lights_generation;
    assert!(scene.update_light(b, light(5.0)).is_ok());
    assert!(!scene.light_set_dirty);
    assert_eq!(scene.movable_lights_generation, before + 1);
    assert_eq!(scene.gpu_movable_lights_generation, before + 1);
    assert_eq!(x_of(&scene.gpu_lights[1]), 5.0);
    // The assigned shadow slot stays; the record keeps the requested one.
    assert_eq!(scene.gpu_lights[1].shadow_index, 6);
    assert_eq!(record(&scene, b).shadow_index, 0);
    assert_eq!(x_of(&scene.gpu_lights[0]), 1.0);
}

#[test]
fn budget_changes_ask_for_a_rebuild() {
    let mut brighter = light(1.0);
    brighter.color_intensity[3] = 200.0f32.to_bits();
    let mut wider = light(1.0);
    wider.position_range[3] = 20.0f32.to_bits();
    let mut unshadowed = light(1.0);
    unshadowed.shadow_index = u32::MAX;
    for change in [brighter, wider, unshadowed] {
        let mut scene = Scene::new();
        let a = scene.insert_light(light(1.0));
        rebuilt(&mut scene);
        let mirror = scene.gpu_lights[0].shadow_index;
        assert!(scene.update_light(a, change).is_ok());
        assert!(scene.light_set_dirty);
        assert_eq!(scene.gpu_lights[0].shadow_index, mirror);
        assert_eq!(scene.gpu_lights[0].position_range, light(1.0).position_range);
        assert_eq!(record(&scene, a).color_intensity, change.color_intensity);
    }
}

#[test]
fn unknown_slot_asks_for_a_rebuild() {
    let mut scene = Scene::new();
    let a = scene.insert_light(light(1.0));
    scene.light_set_dirty = false;
    assert!(scene.update_light(a, light(2.0)).is_ok());
    assert!(scene.light_set_dirty);
    // A stale mapping, too.
    rebuilt(&mut scene);
    scene.movable_slot_of[0] = 7;
    assert!(scene.update_light(a, light(3.0)).is_ok());
    assert!(scene.light_set_dirty);
    assert_eq!(x_of(&scene.gpu_lights[0]), 2.0);
}

#[test]
fn pending_rebuild_skips_the_patch() {
    let mut scene = Scene::new();
    let a = scene.insert_light(light(1.0));
    rebuilt(&mut scene);
    scene.light_set_dirty = true;
    assert!(scene.update_light(a, light(4.0)).is_ok());
    assert_eq!(x_of(&scene.gpu_lights[0]), 1.0);
    assert_eq!(x_of(&record(&scene, a)), 4.0);
}

#[test]
fn static_lights_do_not_move() {
    let mut scene = Scene::new();
    let a = scene.insert_light_with_movability(light(1.0), Some(Movability::Static), 0);
    assert!(scene.update_light(a, light(2.0)).is_ok());
    assert_eq!(x_of(&record(&scene, a)), 1.0);
    let mut turned = light(1.0);
    turned.direction_outer[0] = 1.0f32.to_bits();
    assert!(scene.update_light(a, turned).is_ok());
    assert_eq!(record(&scene, a).direction_outer, light(1.0).direction_outer);
    // Other edits reach the record only, those of range and cone among them.
    let mut wider = light(1.0);
    wider.position_range[3] = 20.0f32.to_bits();
    wider.direction_outer[3] = 0.25f32.to_bits();
    assert!(scene.update_light(a, wider).is_ok());
    assert_eq!(record(&scene, a).position_range, wider.position_range);
    assert_eq!(record(&scene, a).direction_outer, wider.direction_outer);
    let mut dimmer = light(1.0);
    dimmer.color_intensity[3] = 1.0f32.to_bits();
    assert!(scene.update_light(a, dimmer).is_ok());
    assert_eq!(record(&scene, a).color_intensity, dimmer.color_intensity);
    assert_eq!(scene.movable_lights_generation, 0);
}

#[test]
fn change_count_wraps() {
    let mut scene = Scene::new();
    let a = scene.insert_light(light(1.0));
    scene.movable_lights_generation = u64::MAX;
    assert!(scene.update_light(a, light(2.0)).is_ok());
    assert_eq!(scene.movable_lights_generation, 0);
}

#[test]
fn only_moves_of_baked_lights_are_refused() {
    let mut scene = Scene::new();
    scene.insert_light_with_movability(light(1.0), Some(Movability::Static), 0);
    scene.insert_light(light(1.0));
    let mut brighter = light(1.0);
    brighter.color_intensity[3] = 200.0f32.to_bits();
    let mut turned = light(1.0);
    turned.direction_outer[0] = 1.0f32.to_bits();
    let baked = &scene.lights.records[0];
    assert!(move_is_refused(baked, &light(2.0)));
    assert!(move_is_refused(baked, &turned));
    assert!(!move_is_refused(baked, &brighter));
    assert!(!move_is_refused(&scene.lights.records[1], &light(2.0)));
}
