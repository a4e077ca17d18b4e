use helio_pipeline::cull::CullFrame;
use helio_pipeline::errors::PassError;
use helio_pipeline::shadow::{AtlasBindings, AtlasPlan};
use helio_pipeline::views::{GpuLight, ViewTransform, LIGHT_TYPE_POINT};
use helio_pipeline::{CullPass, PipelineShared, ShadowAtlasPass};

const KEY: AtlasBindings = AtlasBindings { instances_ptr: 1, instances_size: 2 };

struct Rig {
    cull: CullPass,
    atlas: ShadowAtlasPass,
    shared: PipelineShared,
    objects: u64,
    matrices: usize,
}

impl Rig {
    fn new(counted: bool) -> Rig {
        Rig {
            cull: CullPass::new(),
            atlas: ShadowAtlasPass::new(),
            shared: PipelineShared::new(counted),
            objects: 0,
            matrices: 12,
        }
    }

    fn prepare(&mut self, seeds: &[u32], draws: usize) {
        let lights: Vec<GpuLight> = (0..seeds.len() as u32)
            .map(|i| GpuLight {
                position_range: [0; 4],
                direction_outer: [0; 4],
                color_intensity: [0; 4],
                shadow_index: 6 * i,
                light_type: LIGHT_TYPE_POINT,
                inner_angle: 0,
                _pad: 0,
            })
            .collect();
        let transforms: Vec<Vec<ViewTransform>> = seeds
            .iter()
            .map(|&s| vec![ViewTransform { view_proj: [s; 16], planes: [[0; 4]; 6] }; 6])
            .collect();
        let frame = CullFrame {
            camera: ViewTransform { view_proj: [1; 16], planes: [[0; 4]; 6] },
            lights: &lights,
            transforms: &transforms,
            shadow_matrix_count: self.matrices,
            draw_call_count: draws,
            camera_generation: 0,
            movable_lights_generation: 0,
            movable_objects_generation: self.objects,
        };
        self.cull.prepare(&mut self.shared, &frame);
    }

    fn run(&mut self) -> Option<AtlasPlan> {
        self.atlas.execute(&mut self.shared, true, KEY).unwrap()
    }
}

fn faces(plan: &AtlasPlan) -> Vec<u32> {
    plan.tiles.iter().map(|t| t.face).collect()
}

#[test]
fn first_run_clears_the_attachment() {
    let mut rig = Rig::new(true);
    rig.prepare(&[5], 10);
    let plan = rig.run().unwrap();
    assert!(plan.clear_attachment && plan.rebuild_bind_group);
    assert_eq!(faces(&plan), vec![0, 1, 2, 3, 4, 5]);
    let tile = plan.tiles[2];
    assert_eq!(tile.viewport, (1024, 0, 512, 512));
    assert!(!tile.clear_tile);
    let geometry = tile.geometry.unwrap();
    assert_eq!(geometry.dyn_offset, 512);
    assert_eq!(geometry.indirect_offset, 3 * 81920);
    assert_eq!(geometry.count_offset, Some(12));
    assert_eq!(geometry.max_draws, 10);
    assert!(rig.shared.atlas_initialized);
}

#[test]
fn first_run_without_faces_still_clears() {
    let mut rig = Rig::new(true);
    let plan = rig.run().unwrap();
    assert!(plan.clear_attachment && plan.tiles.is_empty());
    assert!(rig.run().is_none());
}

#[test]
fn steady_state_renders_nothing() {
    let mut rig = Rig::new(false);
    rig.prepare(&[5], 10);
    assert!(rig.run().is_some());
    rig.prepare(&[5], 10);
    assert!(rig.run().is_none());
}

#[test]
fn moved_light_renders_its_own_faces() {
    let mut rig = Rig::new(false);
    rig.prepare(&[5, 6], 5000);
    assert_eq!(faces(&rig.run().unwrap()).len(), 12);
    rig.prepare(&[5, 7], 5000);
    let plan = rig.run().unwrap();
    assert_eq!(faces(&plan), vec![6, 7, 8, 9, 10, 11]);
    assert!(!plan.clear_attachment && !plan.rebuild_bind_group);
    assert!(plan.tiles[0].clear_tile);
    let geometry = plan.tiles[0].geometry.unwrap();
    assert_eq!(geometry.count_offset, None);
    assert_eq!(geometry.max_draws, 4096);
}

#[test]
fn moved_objects_render_every_active_face() {
    let mut rig = Rig::new(false);
    rig.prepare(&[5], 0);
    let plan = rig.run().unwrap();
    assert!(plan.tiles[0].geometry.is_none());
    rig.objects = 1;
    rig.prepare(&[5], 0);
    assert_eq!(faces(&rig.run().unwrap()), vec![0, 1, 2, 3, 4, 5]);
}

#[test]
fn reactivated_faces_render_again() {
    let mut rig = Rig::new(false);
    rig.prepare(&[5], 1);
    assert!(rig.run().is_some());
    rig.prepare(&[], 1);
    assert!(rig.run().is_none());
    assert!(!rig.shared.face_rendered_once[0]);
    rig.prepare(&[5], 1);
    assert_eq!(faces(&rig.run().unwrap()).len(), 6);
}

#[test]
fn missing_scene_keeps_the_work() {
    let mut rig = Rig::new(false);
    rig.prepare(&[5], 1);
    match rig.atlas.execute(&mut rig.shared, false, KEY) {
        Err(PassError::InvalidPassConfig(text)) => {
            assert_eq!(text, "PipelineShadowAtlas requires main_scene")
        }
        _ => panic!("the scene is missing"),
    }
    assert!(!rig.shared.atlas_initialized);
    rig.prepare(&[5], 1);
    assert_eq!(faces(&rig.run().unwrap()).len(), 6);
    // Nothing to do: a missing scene does not matter.
    assert!(rig.atlas.execute(&mut rig.shared, false, KEY).unwrap().is_none());
}

#[test]
fn new_instances_buffer_rebuilds_the_bind_group() {
    let mut rig = Rig::new(false);
    rig.prepare(&[5], 1);
    assert!(rig.run().unwrap().rebuild_bind_group);
    rig.objects = 1;
    rig.prepare(&[5], 1);
    let other = AtlasBindings { instances_ptr: 1, instances_size: 3 };
    let plan = rig.atlas.execute(&mut rig.shared, true, other).unwrap().unwrap();
    assert!(plan.rebuild_bind_group);
}

#[test]
fn view_table_holds_the_view_of_each_face() {
    let table = ShadowAtlasPass::face_view_table();
    assert_eq!(table.len(), 256 * 256);
    for f in 0..256usize {
        let entry = &table[f * 256..(f + 1) * 256];
        assert_eq!(entry[..4], (1 + f as u32).to_ne_bytes());
        assert!(entry[4..].iter().all(|&b| b == 0));
    }
}

#[test]
fn faces_that_leave_the_range_render_again() {
    let mut rig = Rig::new(false);
    rig.matrices = 6;
    rig.prepare(&[5], 1);
    assert!(rig.run().is_some());
    rig.matrices = 0;
    rig.prepare(&[5], 1);
    assert!(rig.shared.face_active.iter().all(|&a| !a));
    assert!(rig.shared.face_rendered_once.iter().all(|&r| !r));
    rig.matrices = 6;
    rig.prepare(&[5], 1);
    assert!(rig.shared.face_dirty[..6].iter().all(|&d| d));
    assert_eq!(faces(&rig.run().unwrap()), vec![0, 1, 2, 3, 4, 5]);
}
