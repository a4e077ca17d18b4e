//! Light resource management for the scene.
//!
//! Lights are stored in a dense arena and mirrored in a GPU storage buffer. The mirror
//! is rebuilt as a whole from the movable lights when the set is marked dirty; in
//! between, a light that only moves is patched in place.

use vstd::prelude::*;

use crate::arena::{swap_removed, LightArena, LightId, LightRecord, Movability};
use crate::errors::SceneError;
use crate::number;
use crate::views::{GpuLight, NO_SHADOW};

verus! {

/// `Scene::movable_slot_of` of a light without a slot in the GPU light buffer.
pub const NO_SLOT: u32 = u32::MAX;

/// The lights of a scene.
pub struct Scene {
    pub lights: LightArena,
    /// CPU side of the GPU light buffer.
    pub gpu_lights: Vec<GpuLight>,
    /// Counts the changes of movable lights.
    pub movable_lights_generation: u64,
    /// The same count as the GPU scene publishes it.
    pub gpu_movable_lights_generation: u64,
    /// The GPU light buffer and the shadow slots must be rebuilt before the next frame.
    pub light_set_dirty: bool,
    /// An earlier bake no longer matches the scene.
    pub bake_invalidated: bool,
    /// For each place in the arena the slot of its light in the GPU light buffer, or
    /// [`NO_SLOT`]. Empty before the first rebuild: the buffer then holds the lights in
    /// the order of the arena.
    pub movable_slot_of: Vec<u32>,
}

/// The position differs; the range does not count.
pub open spec fn position_changed(old_light: GpuLight, light: GpuLight) -> bool {
    !number::equal_xyz(old_light.position_range@, light.position_range@)
}

/// The direction differs; the cone does not count.
pub open spec fn direction_changed(old_light: GpuLight, light: GpuLight) -> bool {
    !number::equal_xyz(old_light.direction_outer@, light.direction_outer@)
}

/// The light cannot move, and the change would move it.
pub open spec fn move_refused(record: LightRecord, light: GpuLight) -> bool {
    &&& record.movability != Movability::Movable
    &&& position_changed(record.gpu, light) || direction_changed(record.gpu, light)
}

/// The change affects which lights get shadow slots: the intensity or the range, which
/// make up a light's importance, differs, or shadows were switched on or off.
pub open spec fn budget_changed(old_light: GpuLight, light: GpuLight) -> bool {
    ||| !number::equal_numbers(old_light.color_intensity@[3], light.color_intensity@[3])
    ||| !number::equal_numbers(old_light.position_range@[3], light.position_range@[3])
    ||| (old_light.shadow_index == NO_SHADOW) != (light.shadow_index == NO_SHADOW)
}

/// The count after one more change; it wraps around.
pub open spec fn next_generation(generation: u64) -> u64 {
    if generation == u64::MAX {
        0
    } else {
        (generation + 1) as u64
    }
}

/// The records with the GPU parameters of the one at `place` replaced.
pub open spec fn with_gpu(records: Seq<LightRecord>, place: int, light: GpuLight) -> Seq<LightRecord> {
    records.update(place, (LightRecord { gpu: light, ..records[place] }))
}

/// The GPU light with the shadow slot that was assigned to the light at `slot`.
pub open spec fn patched(gpu_lights: Seq<GpuLight>, slot: int, light: GpuLight) -> GpuLight {
    GpuLight { shadow_index: gpu_lights[slot].shadow_index, ..light }
}

/// Whether updating the light with the given parameters does nothing because the light
/// cannot move.
pub fn move_is_refused(record: &LightRecord, light: &GpuLight) -> (refused: bool)
    ensures
        refused == move_refused(*record, *light),
{
    !record.movability.can_move() && (!number::eq_xyz(
        &record.gpu.position_range,
        &light.position_range,
    ) || !number::eq_xyz(&record.gpu.direction_outer, &light.direction_outer))
}

/// The entry of the slot map for a slot of the GPU light buffer.
pub open spec fn slot_entry(slot: int) -> u32 {
    if slot < NO_SLOT {
        slot as u32
    } else {
        NO_SLOT
    }
}

/// The slot map after the light at `place` was removed from the arena, where the light at
/// `last_place` moved to `place`.
pub open spec fn place_forgotten(map: Seq<u32>, place: int, last_place: int) -> Seq<u32> {
    let moved = if last_place < map.len() {
        map[last_place]
    } else {
        NO_SLOT
    };
    let replaced = if place < map.len() {
        map.update(place, moved)
    } else {
        map
    };
    if last_place < map.len() {
        replaced.take(last_place)
    } else {
        replaced
    }
}

/// The slot map after the entry of the GPU light buffer at `from` moved to `to`.
pub open spec fn slot_redirected(map: Seq<u32>, from: int, to: int) -> Seq<u32> {
    Seq::new(
        map.len(),
        |i: int|
            if map[i] == from {
                to as u32
            } else {
                map[i]
            },
    )
}

/// Removes the entry of `place` from the slot map.
fn forget_place(map: &mut Vec<u32>, place: usize, last_place: usize)
    requires
        place <= last_place,
    ensures
        final(map)@ == place_forgotten(old(map)@, place as int, last_place as int),
{
    let moved: u32 = if last_place < map.len() {
        map[last_place]
    } else {
        NO_SLOT
    };
    if place < map.len() {
        map[place] = moved;
    }
    if last_place < map.len() {
        map.truncate(last_place);
    }
    assert(map@ =~= place_forgotten(old(map)@, place as int, last_place as int));
}

/// Lets the light whose copy was at `from` point to `to`.
fn redirect_slot(map: &mut Vec<u32>, from: usize, to: usize)
    requires
        old(map)@.len() > 0 ==> to <= u32::MAX,
    ensures
        final(map)@ == slot_redirected(old(map)@, from as int, to as int),
{
    let mut i: usize = 0;
    while i < map.len()
        invariant
            i <= map@.len(),
            map@.len() == old(map)@.len(),
            map@.len() > 0 ==> to <= u32::MAX,
            forall|k: int|
                0 <= k < i ==> #[trigger] map@[k] == slot_redirected(
                    old(map)@,
                    from as int,
                    to as int,
                )[k],
            forall|k: int| i <= k < map@.len() ==> #[trigger] map@[k] == old(map)@[k],
        decreases map@.len() - i,
    {
        if map[i] as usize == from {
            map[i] = to as u32;
        }
        i += 1;
    }
    assert(map@ =~= slot_redirected(old(map)@, from as int, to as int));
}

impl Scene {
    /// The arena is consistent.
    pub open spec fn wf(&self) -> bool {
        self.lights.wf()
    }

    /// The lights and handles of `self` are those of `pre`.
    pub open spec fn same_handles(&self, pre: &Scene) -> bool {
        &&& self.lights.ids == pre.lights.ids
        &&& self.lights.slots == pre.lights.slots
        &&& self.lights.free == pre.lights.free
    }

    /// Slot of the light at `place` in the GPU light buffer, if it is known.
    pub open spec fn gpu_slot(&self, place: int) -> Option<int> {
        if 0 <= place < self.movable_slot_of@.len() && self.movable_slot_of@[place]
            < self.gpu_lights@.len() {
            Some(self.movable_slot_of@[place] as int)
        } else {
            None
        }
    }

    /// Slot of the GPU light buffer that holds the copy of the light at `place`: the one
    /// that the slot map names, and the place itself before the first rebuild.
    pub open spec fn copy_slot(&self, place: int) -> Option<int> {
        if self.movable_slot_of@.len() > 0 {
            self.gpu_slot(place)
        } else if 0 <= place < self.gpu_lights@.len() {
            Some(place)
        } else {
            None
        }
    }

    /// Slot of the GPU light buffer that holds the copy of the light at `place`.
    fn find_copy(&self, place: usize) -> (slot: Option<usize>)
        ensures
            match slot {
                Some(found) => self.copy_slot(place as int) == Some(found as int),
                None => self.copy_slot(place as int) is None,
            },
    {
        if self.movable_slot_of.len() > 0 {
            if place < self.movable_slot_of.len() {
                let slot: usize = self.movable_slot_of[place] as usize;
                if slot < self.gpu_lights.len() {
                    return Some(slot);
                }
            }
            None
        } else if place < self.gpu_lights.len() {
            Some(place)
        } else {
            None
        }
    }

    /// What updating the light at `place` makes of the scene.
    pub open spec fn updated(&self, pre: &Scene, place: int, light: GpuLight) -> bool {
        let record = pre.lights.records@[place];
        &&& self.same_handles(pre)
        &&& self.movable_slot_of == pre.movable_slot_of
        &&& self.bake_invalidated == pre.bake_invalidated
        &&& if record.movability != Movability::Movable {
            // Baked lights cannot move, and are not in the GPU light buffer.
            &&& self.lights.records@ == (if move_refused(record, light) {
                pre.lights.records@
            } else {
                with_gpu(pre.lights.records@, place, light)
            })
            &&& self.gpu_lights == pre.gpu_lights
            &&& self.movable_lights_generation == pre.movable_lights_generation
            &&& self.gpu_movable_lights_generation == pre.gpu_movable_lights_generation
            &&& self.light_set_dirty == pre.light_set_dirty
        } else {
            let patch = !budget_changed(record.gpu, light) && !pre.light_set_dirty && pre.gpu_slot(
                place,
            ) is Some;
            &&& self.lights.records@ == with_gpu(pre.lights.records@, place, light)
            &&& self.movable_lights_generation == next_generation(pre.movable_lights_generation)
            &&& self.gpu_movable_lights_generation == self.movable_lights_generation
            &&& self.light_set_dirty == !patch
            &&& self.gpu_lights@ == (if patch {
                pre.gpu_lights@.update(
                    pre.gpu_slot(place)->0,
                    patched(pre.gpu_lights@, pre.gpu_slot(place)->0, light),
                )
            } else {
                pre.gpu_lights@
            })
        }
    }

    /// A scene without lights.
    pub fn new() -> (scene: Self)
        ensures
            scene.wf(),
            scene.lights.records@.len() == 0,
            scene.lights.ids@.len() == 0,
            scene.lights.slots@.len() == 0,
            scene.lights.free@.len() == 0,
            forall|id: LightId| !#[trigger] scene.lights.live(id) && !scene.lights.issued(id),
            scene.gpu_lights@.len() == 0,
            scene.movable_lights_generation == 0,
            scene.gpu_movable_lights_generation == 0,
            !scene.light_set_dirty,
            !scene.bake_invalidated,
            scene.movable_slot_of@.len() == 0,
            copies_tracked(&scene),
            mirror_current(&scene),
    {
        let lights: LightArena = LightArena::new();
        assert forall|id: LightId| !#[trigger] lights.live(id) && !lights.issued(id) by {
            assert(!lights.issued(id));
        }
        Scene {
            lights,
            gpu_lights: Vec::new(),
            movable_lights_generation: 0,
            gpu_movable_lights_generation: 0,
            light_set_dirty: false,
            bake_invalidated: false,
            movable_slot_of: Vec::new(),
        }
    }

    /// What inserting a record makes of the scene.
    pub open spec fn inserted(&self, pre: &Scene, id: LightId, record: LightRecord) -> bool {
        &&& self.wf()
        &&& self.lights.records@ == pre.lights.records@.push(record)
        &&& self.lights.ids@ == pre.lights.ids@.push(id)
        &&& self.lights.place(id) == Some(pre.lights.records@.len() as int)
        &&& !pre.lights.issued(id)
        &&& forall|other: LightId|
            other != id ==> #[trigger] self.lights.place(other) == pre.lights.place(other)
        &&& forall|other: LightId| #[trigger]
            self.lights.issued(other) == (pre.lights.issued(other) || other == id)
        &&& self.gpu_lights@ == pre.gpu_lights@.push(record.gpu)
        &&& self.light_set_dirty
        &&& self.bake_invalidated == (pre.bake_invalidated || record.movability
            != Movability::Movable)
        &&& self.movable_lights_generation == pre.movable_lights_generation
        &&& self.gpu_movable_lights_generation == pre.gpu_movable_lights_generation
        // Once there is a slot map, it covers the new light, too.
        &&& self.movable_slot_of@ == (if pre.movable_slot_of@.len() > 0
            && pre.movable_slot_of@.len() == pre.lights.records@.len() {
            pre.movable_slot_of@.push(slot_entry(pre.gpu_lights@.len() as int))
        } else {
            pre.movable_slot_of@
        })
    }

    /// Inserts a movable light without a user tag.
    pub fn insert_light(&mut self, light: GpuLight) -> (id: LightId)
        requires
            old(self).wf(),
        ensures
            final(self).inserted(
                old(self),
                id,
                (LightRecord { gpu: light, movability: Movability::Movable, user_tag: 0 }),
            ),
    {
        self.insert_light_with_movability(light, None, 0)
    }

    /// Inserts a light with explicit movability and user tag. Lights are movable unless
    /// said otherwise.
    pub fn insert_light_with_movability(
        &mut self,
        light: GpuLight,
        movability: Option<Movability>,
        user_tag: u64,
    ) -> (id: LightId)
        requires
            old(self).wf(),
        ensures
            final(self).inserted(
                old(self),
                id,
                (LightRecord {
                    gpu: light,
                    movability: match movability {
                        Some(given) => given,
                        None => Movability::Movable,
                    },
                    user_tag,
                }),
            ),
    {
        let movability: Movability = match movability {
            Some(given) => given,
            None => Movability::Movable,
        };
        let (id, dense_index) = self.lights.insert(
            LightRecord { gpu: light, movability, user_tag },
        );
        let slot: usize = self.gpu_lights.len();
        self.gpu_lights.push(light);
        if self.movable_slot_of.len() > 0 && self.movable_slot_of.len() == dense_index {
            self.movable_slot_of.push(
                if slot < NO_SLOT as usize {
                    slot as u32
                } else {
                    NO_SLOT
                },
            );
        }

        // The movable set changed: the GPU light buffer must be rebuilt.
        self.light_set_dirty = true;

        // Invalidate any previous bake if this is a static/stationary light.
        if !movability.can_move() {
            self.bake_invalidated = true;
        }
        id
    }

    /// Updates a light's parameters.
    ///
    /// A light that is not movable keeps its position and direction: an update that
    /// changes them does nothing. A movable light that only moved is patched in the GPU
    /// light buffer, where it keeps the shadow slot assigned to it; any other change,
    /// and one whose slot is not known, asks for a rebuild.
    pub fn update_light(&mut self, id: LightId, light: GpuLight) -> (result: Result<(), SceneError>)
        requires
            old(self).wf(),
        ensures
            final(self).wf(),
            match result {
                Ok(()) => {
                    &&& old(self).lights.live(id)
                    &&& final(self).updated(old(self), old(self).lights.place(id)->0, light)
                    // A change of the shadow budget asks for a rebuild.
                    &&& ({
                        let before = old(self).lights.records@[old(self).lights.place(id)->0];
                        &&& before.movability == Movability::Movable
                        &&& {
                            ||| before.gpu.shadow_index == u32::MAX && light.shadow_index
                                != u32::MAX
                            ||| before.gpu.shadow_index != u32::MAX && light.shadow_index
                                == u32::MAX
                            ||| !number::equal_numbers(
                                before.gpu.color_intensity@[3],
                                light.color_intensity@[3],
                            )
                            ||| !number::equal_numbers(
                                before.gpu.position_range@[3],
                                light.position_range@[3],
                            )
                        }
                    }) ==> final(self).light_set_dirty
                },
                Err(SceneError::InvalidHandle(resource)) => {
                    &&& !old(self).lights.live(id)
                    &&& resource@ == "light"@
                    &&& *final(self) == *old(self)
                },
            },
    {
        let dense_index: usize = match self.lights.index_of(id) {
            Some(index) => index,
            None => {
                return Err(SceneError::InvalidHandle("light"));
            },
        };
        let record: LightRecord = self.lights.records[dense_index];
        let current: GpuLight = record.gpu;

        if !record.movability.can_move() {
            if move_is_refused(&record, &light) {
                return Ok(());
            }
            self.lights.set_gpu(dense_index, light);
            return Ok(());
        }
        self.lights.set_gpu(dense_index, light);

        self.movable_lights_generation = if self.movable_lights_generation == u64::MAX {
            0
        } else {
            self.movable_lights_generation + 1
        };
        self.gpu_movable_lights_generation = self.movable_lights_generation;

        let score_changed: bool = !number::eq_number(
            current.color_intensity[3],
            light.color_intensity[3],
        ) || !number::eq_number(current.position_range[3], light.position_range[3]);
        let shadow_enable_changed: bool = (current.shadow_index == NO_SHADOW) != (
        light.shadow_index == NO_SHADOW);
        if score_changed || shadow_enable_changed {
            self.light_set_dirty = true;
            return Ok(());
        }
        // A rebuild is pending already and will read the fresh record.
        if self.light_set_dirty {
            return Ok(());
        }
        // Position/direction-only change: patch the slot in place, preserving the
        // assigned shadow slot.
        if dense_index < self.movable_slot_of.len() {
            let slot: usize = self.movable_slot_of[dense_index] as usize;
            if slot < self.gpu_lights.len() {
                let mut patched_light: GpuLight = light;
                patched_light.shadow_index = self.gpu_lights[slot].shadow_index;
                self.gpu_lights[slot] = patched_light;
                return Ok(());
            }
        }
        // Mapping missing or stale.
        self.light_set_dirty = true;
        Ok(())
    }

    /// What removing the light at `place` makes of the scene.
    pub open spec fn removed(&self, pre: &Scene, id: LightId, place: int) -> bool {
        &&& self.lights.records@ == swap_removed(pre.lights.records@, place)
        &&& self.lights.ids@ == swap_removed(pre.lights.ids@, place)
        &&& !self.lights.live(id)
        &&& forall|other: LightId|
            other != id ==> #[trigger] self.lights.place(other) == (if pre.lights.place(other)
                == Some(pre.lights.records@.len() - 1) {
                Some(place)
            } else {
                pre.lights.place(other)
            })
        &&& match pre.copy_slot(place) {
            Some(slot) => {
                &&& self.gpu_lights@ == swap_removed(pre.gpu_lights@, slot)
                &&& self.movable_slot_of@ == slot_redirected(
                    place_forgotten(pre.movable_slot_of@, place, pre.lights.records@.len() - 1),
                    pre.gpu_lights@.len() - 1,
                    slot,
                )
            },
            None => {
                &&& self.gpu_lights@ == pre.gpu_lights@
                &&& self.movable_slot_of@ == place_forgotten(
                    pre.movable_slot_of@,
                    place,
                    pre.lights.records@.len() - 1,
                )
            },
        }
        &&& self.light_set_dirty
        &&& self.bake_invalidated == pre.bake_invalidated
        &&& self.movable_lights_generation == pre.movable_lights_generation
        &&& self.gpu_movable_lights_generation == pre.gpu_movable_lights_generation
    }

    /// Removes a light. The last light takes its place in the arena. In the GPU light
    /// buffer, the last entry moves to the slot that held the removed light; a light
    /// without a slot there leaves the buffer as it is.
    pub fn remove_light(&mut self, id: LightId) -> (result: Result<(), SceneError>)
        requires
            old(self).wf(),
        ensures
            final(self).wf(),
            forall|other: LightId| #[trigger]
                final(self).lights.issued(other) == old(self).lights.issued(other),
            match result {
                Ok(()) => {
                    &&& old(self).lights.live(id)
                    &&& final(self).removed(old(self), id, old(self).lights.place(id)->0)
                },
                Err(SceneError::InvalidHandle(resource)) => {
                    &&& !old(self).lights.live(id)
                    &&& resource@ == "light"@
                    &&& *final(self) == *old(self)
                },
            },
    {
        let dense_index: usize = match self.lights.remove(id) {
            Some(index) => index,
            None => {
                return Err(SceneError::InvalidHandle("light"));
            },
        };
        let last_place: usize = self.lights.records.len();
        let copy: Option<usize> = self.find_copy(dense_index);
        forget_place(&mut self.movable_slot_of, dense_index, last_place);
        if let Some(slot) = copy {
            redirect_slot(&mut self.movable_slot_of, self.gpu_lights.len() - 1, slot);
            self.gpu_lights.swap_remove(slot);
        }
        // The movable set changed: the GPU light buffer must be rebuilt.
        self.light_set_dirty = true;
        Ok(())
    }
}

/// A new light is found under its handle, and the other lights stay as they are.
pub proof fn insertion_keeps_other_lights(
    post: &Scene,
    pre: &Scene,
    id: LightId,
    record: LightRecord,
    other: LightId,
)
    requires
        pre.wf(),
        post.inserted(pre, id, record),
    ensures
        post.lights.live(id),
        post.lights.record(id) == record,
        other != id ==> post.lights.live(other) == pre.lights.live(other),
        pre.lights.live(other) ==> other != id && post.lights.record(other) == pre.lights.record(
            other,
        ),
{
    live_handles_were_issued(pre, other);
    assert(post.lights.place(other) == post.lights.place(other));
}

/// Removing a light leaves every other light as it is, although one of them changes
/// its place.
pub proof fn removal_keeps_other_lights(
    post: &Scene,
    pre: &Scene,
    id: LightId,
    place: int,
    other: LightId,
)
    requires
        pre.wf(),
        pre.lights.place(id) == Some(place),
        post.removed(pre, id, place),
        other != id,
    ensures
        !post.lights.live(id),
        post.lights.live(other) == pre.lights.live(other),
        pre.lights.live(other) ==> post.lights.record(other) == pre.lights.record(other),
        post.lights.records@.len() == pre.lights.records@.len() - 1,
{
    assert(pre.lights.slots@[id.slot as int].dense is Some);
    if pre.lights.live(other) {
        let p = pre.lights.place(other)->0;
        assert(pre.lights.slots@[other.slot as int].dense is Some);
        assert(pre.lights.ids@[p].slot == other.slot);
        assert(pre.lights.ids@[place].slot == id.slot);
        assert(p != place);
        assert(post.lights.place(other) is Some);
    }
    assert(post.lights.place(other) is Some == pre.lights.place(other) is Some);
}

/// Updating a light leaves every other light, and every handle, as it is.
pub proof fn update_keeps_other_lights(
    post: &Scene,
    pre: &Scene,
    id: LightId,
    light: GpuLight,
    other: LightId,
)
    requires
        pre.wf(),
        pre.lights.live(id),
        post.updated(pre, pre.lights.place(id)->0, light),
    ensures
        post.lights.place(other) == pre.lights.place(other),
        pre.lights.live(other) && other != id ==> post.lights.record(other) == pre.lights.record(
            other,
        ),
        post.lights.record(id).movability == pre.lights.record(id).movability,
        post.lights.record(id).user_tag == pre.lights.record(id).user_tag,
{
    let p = pre.lights.place(id)->0;
    assert(pre.lights.slots@[id.slot as int].dense is Some);
    assert(pre.lights.ids@[p].slot == id.slot);
    if pre.lights.live(other) && other != id {
        let q = pre.lights.place(other)->0;
        assert(pre.lights.slots@[other.slot as int].dense is Some);
        assert(pre.lights.ids@[q].slot == other.slot);
        assert(q != p);
    }
}

/// Every live handle was given out by an insertion.
pub proof fn live_handles_were_issued(scene: &Scene, id: LightId)
    requires
        scene.wf(),
    ensures
        scene.lights.live(id) ==> scene.lights.issued(id),
{
    if scene.lights.live(id) && scene.lights.free@.contains(id.slot) {
        let k = choose|k: int|
            0 <= k < scene.lights.free@.len() && scene.lights.free@[k] == id.slot;
        assert(scene.lights.slots@[scene.lights.free@[k] as int].dense is None);
    }
}

/// A handle that was removed never becomes valid again: it is still known as given out
/// and still dead after any further insertion, removal or update.
pub proof fn removed_handles_stay_dead(
    post: &Scene,
    pre: &Scene,
    dead: LightId,
    id: LightId,
    record: LightRecord,
    light: GpuLight,
)
    requires
        pre.wf(),
        pre.lights.issued(dead),
        !pre.lights.live(dead),
        ({
            ||| post.inserted(pre, id, record)
            ||| pre.lights.live(id) && post.removed(pre, id, pre.lights.place(id)->0) && (forall|
                other: LightId,
            | #[trigger] post.lights.issued(other) == pre.lights.issued(other))
            ||| pre.lights.live(id) && post.updated(pre, pre.lights.place(id)->0, light)
        }),
    ensures
        post.lights.issued(dead),
        !post.lights.live(dead),
{
    assert(post.lights.issued(dead));
    assert(post.lights.place(dead) is None) by {
        if post.inserted(pre, id, record) {
            assert(dead != id);
        }
    }
}

/// A light that is not movable never moves: whatever it is updated with, its position
/// and direction stay numerically the same, and the GPU light buffer is not touched.
pub proof fn baked_lights_never_move(post: &Scene, pre: &Scene, id: LightId, light: GpuLight)
    requires
        pre.wf(),
        pre.lights.live(id),
        pre.lights.record(id).movability != Movability::Movable,
        post.updated(pre, pre.lights.place(id)->0, light),
    ensures
        ({
            let (before, after) = (pre.lights.record(id).gpu, post.lights.record(id).gpu);
            ||| after == before
            ||| !position_changed(before, after) && !direction_changed(before, after)
        }),
        post.gpu_lights == pre.gpu_lights,
        post.movable_lights_generation == pre.movable_lights_generation,
{
    let p = pre.lights.place(id)->0;
    assert(pre.lights.slots@[id.slot as int].dense is Some);
    assert(pre.lights.ids@[p].slot == id.slot);
}

/// Every update of a movable light is noticed: the count of changes differs after it,
/// and the GPU scene publishes it.
pub proof fn movable_updates_are_noticed(post: &Scene, pre: &Scene, id: LightId, light: GpuLight)
    requires
        pre.wf(),
        pre.lights.live(id),
        pre.lights.record(id).movability == Movability::Movable,
        post.updated(pre, pre.lights.place(id)->0, light),
    ensures
        post.movable_lights_generation != pre.movable_lights_generation,
        post.gpu_movable_lights_generation == post.movable_lights_generation,
        post.lights.record(id).gpu == light,
{
    let p = pre.lights.place(id)->0;
    assert(pre.lights.slots@[id.slot as int].dense is Some);
    assert(pre.lights.ids@[p].slot == id.slot);
}

/// An update never changes which shadow slots are assigned in the GPU light buffer.
pub proof fn updates_keep_assigned_shadow_slots(
    post: &Scene,
    pre: &Scene,
    place: int,
    light: GpuLight,
    slot: int,
)
    requires
        post.updated(pre, place, light),
        0 <= slot < pre.gpu_lights@.len(),
    ensures
        post.gpu_lights@.len() == pre.gpu_lights@.len(),
        post.gpu_lights@[slot].shadow_index == pre.gpu_lights@[slot].shadow_index,
{
}

/// The GPU light buffer mirrors the movable lights, unless a rebuild is pending: each
/// of them has a slot of its own, which holds its parameters with the assigned shadow
/// slot.
pub open spec fn mirror_current(scene: &Scene) -> bool {
    scene.light_set_dirty || {
        &&& forall|p: int|
            0 <= p < scene.lights.records@.len() && (#[trigger] scene.lights.records@[p]).movability
                == Movability::Movable ==> {
                &&& scene.gpu_slot(p) is Some
                &&& scene.gpu_lights@[scene.gpu_slot(p)->0] == patched(
                    scene.gpu_lights@,
                    scene.gpu_slot(p)->0,
                    scene.lights.records@[p].gpu,
                )
            }
        &&& forall|p: int, q: int|
            0 <= p < q < scene.lights.records@.len() && (
            #[trigger] scene.lights.records@[p]).movability == Movability::Movable && (
            #[trigger] scene.lights.records@[q]).movability == Movability::Movable
                ==> scene.gpu_slot(p) != scene.gpu_slot(q)
    }
}

/// No operation lets the GPU light buffer fall behind the movable lights unnoticed.
pub proof fn mirror_stays_current(
    post: &Scene,
    pre: &Scene,
    id: LightId,
    record: LightRecord,
    light: GpuLight,
)
    requires
        pre.wf(),
        mirror_current(pre),
        ({
            ||| post.inserted(pre, id, record)
            ||| pre.lights.live(id) && post.removed(pre, id, pre.lights.place(id)->0)
            ||| pre.lights.live(id) && post.updated(pre, pre.lights.place(id)->0, light)
        }),
    ensures
        mirror_current(post),
{
    if !post.light_set_dirty {
        let p = pre.lights.place(id)->0;
        assert(pre.lights.slots@[id.slot as int].dense is Some);
        assert(pre.lights.ids@[p].slot == id.slot);
        assert(!pre.light_set_dirty);
        let changed = pre.lights.records@[p];
        assert forall|q: int|
            0 <= q < post.lights.records@.len() && (#[trigger] post.lights.records@[q]).movability
                == Movability::Movable implies {
            &&& post.gpu_slot(q) is Some
            &&& post.gpu_lights@[post.gpu_slot(q)->0] == patched(
                post.gpu_lights@,
                post.gpu_slot(q)->0,
                post.lights.records@[q].gpu,
            )
        } by {
            let before = pre.lights.records@[q];
            assert(post.gpu_slot(q) == pre.gpu_slot(q));
        }
        assert forall|q: int, r: int|
            0 <= q < r < post.lights.records@.len() && (
            #[trigger] post.lights.records@[q]).movability == Movability::Movable && (
            #[trigger] post.lights.records@[r]).movability
                == Movability::Movable implies post.gpu_slot(q) != post.gpu_slot(r) by {
            let (first, second) = (pre.lights.records@[q], pre.lights.records@[r]);
            assert(post.gpu_slot(q) == pre.gpu_slot(q));
            assert(post.gpu_slot(r) == pre.gpu_slot(r));
        }
    }
}

/// The slot map numbers the entries of a buffer of the given length: each light has an entry
/// or none, no two share one, and no entry is without a light.
pub open spec fn numbers_entries(map: Seq<u32>, len: int) -> bool {
    &&& forall|p: int| 0 <= p < map.len() ==> #[trigger] map[p] == NO_SLOT || map[p] < len
    &&& forall|p: int, q: int|
        0 <= p < q < map.len() && #[trigger] map[p] == #[trigger] map[q] ==> map[p] == NO_SLOT
    &&& forall|slot: int| 0 <= slot < len ==> #[trigger] map.contains(slot as u32)
}

/// Each entry of the GPU light buffer is the copy of one light, and the scene knows of which:
/// before the first rebuild the copies lie in the order of the arena; after it the slot map
/// covers the arena and numbers the entries.
pub open spec fn copies_tracked(scene: &Scene) -> bool {
    let map = scene.movable_slot_of@;
    &&& scene.gpu_lights@.len() <= NO_SLOT
    &&& if map.len() == 0 {
        scene.gpu_lights@.len() == scene.lights.records@.len()
    } else {
        &&& map.len() == scene.lights.records@.len()
        &&& numbers_entries(map, scene.gpu_lights@.len() as int)
    }
}

/// Removing a light takes exactly its own copy out of the GPU light buffer: the last entry
/// moves to its slot, and every other entry stays where it is.
pub proof fn removal_takes_the_lights_own_copy(
    post: &Scene,
    pre: &Scene,
    id: LightId,
    place: int,
    slot: int,
    i: int,
)
    requires
        post.removed(pre, id, place),
        pre.copy_slot(place) == Some(slot),
    ensures
        post.gpu_lights@.len() == pre.gpu_lights@.len() - 1,
        slot < pre.gpu_lights@.len() - 1 ==> post.gpu_lights@[slot] == pre.gpu_lights@.last(),
        0 <= i < pre.gpu_lights@.len() - 1 && i != slot ==> post.gpu_lights@[i]
            == pre.gpu_lights@[i],
{
}

/// Removing a light keeps the copies of all others in the GPU light buffer: each of them
/// is found again, unchanged.
pub proof fn removal_keeps_other_copies(
    post: &Scene,
    pre: &Scene,
    id: LightId,
    place: int,
    other: LightId,
)
    requires
        pre.wf(),
        copies_tracked(pre),
        pre.lights.place(id) == Some(place),
        post.removed(pre, id, place),
        other != id,
        pre.lights.live(other),
    ensures
        ({
            let before = pre.copy_slot(pre.lights.place(other)->0);
            let after = post.copy_slot(post.lights.place(other)->0);
            &&& before is Some == after is Some
            &&& before is Some ==> post.gpu_lights@[after->0] == pre.gpu_lights@[before->0]
        }),
{
    let p = pre.lights.place(other)->0;
    let last_place = pre.lights.records@.len() - 1;
    assert(pre.lights.slots@[id.slot as int].dense is Some);
    assert(pre.lights.slots@[other.slot as int].dense is Some);
    assert(pre.lights.ids@[p].slot == other.slot);
    assert(pre.lights.ids@[place].slot == id.slot);
    assert(p != place);
    let q = post.lights.place(other)->0;
    assert(q == if p == last_place { place } else { p });
    let map = pre.movable_slot_of@;
    if map.len() > 0 {
        let forgotten = place_forgotten(map, place, last_place);
        assert(forgotten[q] == map[p]);
        assert(map[p] == map[place] ==> map[p] == NO_SLOT);
    }
}

/// A new light gets its copy at the end of the GPU light buffer, and all other copies stay
/// where they are.
pub proof fn insertion_keeps_other_copies(
    post: &Scene,
    pre: &Scene,
    id: LightId,
    record: LightRecord,
    place: int,
)
    requires
        pre.wf(),
        copies_tracked(pre),
        pre.gpu_lights@.len() < NO_SLOT,
        post.inserted(pre, id, record),
        0 <= place < pre.lights.records@.len(),
    ensures
        post.copy_slot(pre.lights.records@.len() as int) == Some(pre.gpu_lights@.len() as int),
        post.gpu_lights@.last() == record.gpu,
        post.copy_slot(place) == pre.copy_slot(place),
        pre.copy_slot(place) matches Some(slot) ==> post.gpu_lights@[slot]
            == pre.gpu_lights@[slot],
{
    let map = pre.movable_slot_of@;
    if map.len() > 0 {
        assert(map[place] == NO_SLOT || map[place] < pre.gpu_lights@.len());
    }
}

/// No operation loses track of the copies. (An insertion needs room for one more slot
/// number.)
pub proof fn copies_stay_tracked(
    post: &Scene,
    pre: &Scene,
    id: LightId,
    record: LightRecord,
    light: GpuLight,
)
    requires
        pre.wf(),
        copies_tracked(pre),
        ({
            ||| post.inserted(pre, id, record) && pre.gpu_lights@.len() < NO_SLOT
            ||| pre.lights.live(id) && post.removed(pre, id, pre.lights.place(id)->0)
            ||| pre.lights.live(id) && post.updated(pre, pre.lights.place(id)->0, light)
        }),
    ensures
        copies_tracked(post),
{
    let (map, after) = (pre.movable_slot_of@, post.movable_slot_of@);
    if post.inserted(pre, id, record) && pre.gpu_lights@.len() < NO_SLOT {
        if map.len() > 0 {
            insertion_tracks(map, after, pre.gpu_lights@.len() as int);
        }
    } else if pre.lights.live(id) && post.updated(pre, pre.lights.place(id)->0, light) {
    } else {
        let place = pre.lights.place(id)->0;
        assert(pre.lights.slots@[id.slot as int].dense is Some);
        assert(pre.lights.ids@[place].slot == id.slot);
        if map.len() > 0 {
            removal_tracks(map, after, pre.gpu_lights@.len() as int, place);
        }
    }
}

proof fn insertion_tracks(map: Seq<u32>, after: Seq<u32>, len: int)
    requires
        0 <= len < NO_SLOT,
        numbers_entries(map, len),
        after == map.push(len as u32),
    ensures
        numbers_entries(after, len + 1),
{
    assert forall|slot: int| 0 <= slot < len + 1 implies #[trigger] after.contains(slot as u32) by {
        if slot < len {
            assert(map.contains(slot as u32));
            let p = choose|p: int| 0 <= p < map.len() && map[p] == slot as u32;
            assert(after[p] == slot as u32);
        } else {
            assert(after[map.len() as int] == slot as u32);
        }
    }
}

proof fn removal_tracks(map: Seq<u32>, after: Seq<u32>, len: int, place: int)
    requires
        0 <= len <= NO_SLOT,
        numbers_entries(map, len),
        0 <= place < map.len(),
        ({
            let forgotten = place_forgotten(map, place, map.len() - 1);
            after == (if map[place] < len {
                slot_redirected(forgotten, len - 1, map[place] as int)
            } else {
                forgotten
            })
        }),
    ensures
        numbers_entries(
            after,
            if map[place] < len {
                len - 1
            } else {
                len
            },
        ),
        after.len() == map.len() - 1,
        after.len() == 0 ==> (if map[place] < len {
            len - 1
        } else {
            len
        }) == 0,
{
    let last_place = map.len() - 1;
    let s = map[place];
    let new_len = if s < len {
        len - 1
    } else {
        len
    };
    // The place from which the entry at `q` comes.
    let source = |q: int|
        if q == place {
            last_place
        } else {
            q
        };
    assert forall|q: int| 0 <= q < after.len() implies #[trigger] after[q] == (if s < len
        && map[source(q)] == len - 1 {
        s
    } else {
        map[source(q)]
    }) && source(q) != place && 0 <= source(q) < map.len() by {}
    assert forall|q: int| 0 <= q < after.len() implies #[trigger] after[q] == NO_SLOT || after[q]
        < new_len by {
        let from = map[source(q)];
        assert(from == s ==> s == NO_SLOT);
    }
    assert forall|p: int, q: int|
        0 <= p < q < after.len() && #[trigger] after[p] == #[trigger] after[q] implies after[p]
        == NO_SLOT by {
        let (a, b) = (map[source(p)], map[source(q)]);
        assert(source(p) != source(q));
        assert(a == b ==> a == NO_SLOT);
        assert(a == s ==> s == NO_SLOT);
        assert(b == s ==> s == NO_SLOT);
    }
    assert forall|slot: int| 0 <= slot < new_len implies #[trigger] after.contains(slot as u32) by {
        let wanted = if s < len && slot == s {
            len - 1
        } else {
            slot
        };
        assert(map.contains(wanted as u32));
        let p = choose|p: int| 0 <= p < map.len() && map[p] == wanted as u32;
        assert(p != place);
        let q = if p == last_place {
            place
        } else {
            p
        };
        assert(source(q) == p);
        assert(after[q] == slot as u32);
    }
    if after.len() == 0 && new_len > 0 {
        assert(after.contains(0int as u32));
    }
}

/// A movable light whose shadows are switched on or off, or whose importance changes, gets
/// its share of the shadow budget anew: the update asks for a rebuild and leaves the GPU
/// light buffer to it. Importance is a matter of the intensity and the range. An update in
/// which none of these differs patches the light's slot where it is known and no rebuild is
/// pending, and only there.
pub proof fn budget_changes_are_rebuilt(post: &Scene, pre: &Scene, place: int, light: GpuLight)
    requires
        post.updated(pre, place, light),
        0 <= place < pre.lights.records@.len(),
        pre.lights.records@[place].movability == Movability::Movable,
    ensures
        ({
            let before = pre.lights.records@[place].gpu;
            let budget = {
                ||| before.shadow_index == u32::MAX && light.shadow_index != u32::MAX
                ||| before.shadow_index != u32::MAX && light.shadow_index == u32::MAX
                ||| !number::equal_numbers(before.color_intensity@[3], light.color_intensity@[3])
                ||| !number::equal_numbers(before.position_range@[3], light.position_range@[3])
            };
            let known = {
                &&& place < pre.movable_slot_of@.len()
                &&& pre.movable_slot_of@[place] < pre.gpu_lights@.len()
            };
            &&& post.light_set_dirty <==> budget || pre.light_set_dirty || !known
            &&& post.light_set_dirty ==> post.gpu_lights@ == pre.gpu_lights@
        }),
{
}

/// A patched light shows its new parameters on the GPU in all but the shadow slot, which
/// stays the one assigned to it, and no other entry changes.
pub proof fn patches_replace_all_but_the_shadow_slot(
    post: &Scene,
    pre: &Scene,
    place: int,
    light: GpuLight,
    other: int,
)
    requires
        post.updated(pre, place, light),
        0 <= place < pre.lights.records@.len(),
        pre.lights.records@[place].movability == Movability::Movable,
        !post.light_set_dirty,
        0 <= other < pre.gpu_lights@.len(),
    ensures
        post.gpu_lights@.len() == pre.gpu_lights@.len(),
        pre.movable_slot_of@[place] < pre.gpu_lights@.len(),
        ({
            let slot = pre.movable_slot_of@[place] as int;
            let entry = post.gpu_lights@[slot];
            &&& entry.position_range == light.position_range
            &&& entry.direction_outer == light.direction_outer
            &&& entry.color_intensity == light.color_intensity
            &&& entry.light_type == light.light_type
            &&& entry.inner_angle == light.inner_angle
            &&& entry._pad == light._pad
            &&& entry.shadow_index == pre.gpu_lights@[slot].shadow_index
            &&& other != slot ==> post.gpu_lights@[other] == pre.gpu_lights@[other]
        }),
{
}

/// An update replaces the parameters of its light and nothing else of the records, counts a
/// change of a movable light once, and touches no flag of a baked one. A baked light takes
/// the update exactly when none of the three components of its position and of its direction
/// differs.
pub proof fn updates_replace_the_parameters(
    post: &Scene,
    pre: &Scene,
    place: int,
    light: GpuLight,
    other: int,
)
    requires
        post.updated(pre, place, light),
        0 <= place < pre.lights.records@.len(),
        0 <= other < pre.lights.records@.len(),
    ensures
        ({
            let (before, after) = (pre.lights.records@[place], post.lights.records@[place]);
            let moves = exists|c: int|
                0 <= c < 3 && (!number::equal_numbers(
                    #[trigger] before.gpu.position_range@[c],
                    light.position_range@[c],
                ) || !number::equal_numbers(
                    before.gpu.direction_outer@[c],
                    light.direction_outer@[c],
                ));
            &&& after.movability == before.movability
            &&& after.user_tag == before.user_tag
            &&& before.movability == Movability::Movable ==> after.gpu == light
            &&& before.movability != Movability::Movable && moves ==> after.gpu == before.gpu
            &&& before.movability != Movability::Movable && !moves ==> after.gpu == light
            &&& before.movability == Movability::Movable ==> post.movable_lights_generation == (
            pre.movable_lights_generation + 1) % 0x1_0000_0000_0000_0000
            &&& before.movability == Movability::Movable ==> post.gpu_movable_lights_generation
                == post.movable_lights_generation
            &&& before.movability != Movability::Movable ==> {
                &&& post.movable_lights_generation == pre.movable_lights_generation
                &&& post.gpu_movable_lights_generation == pre.gpu_movable_lights_generation
                &&& post.light_set_dirty == pre.light_set_dirty
                &&& post.gpu_lights@ == pre.gpu_lights@
            }
        }),
        post.lights.records@.len() == pre.lights.records@.len(),
        other != place ==> post.lights.records@[other] == pre.lights.records@[other],
        post.lights.ids == pre.lights.ids,
        post.movable_slot_of == pre.movable_slot_of,
        post.bake_invalidated == pre.bake_invalidated,
{
    let before = pre.lights.records@[place];
    let (x, y, z) = (
        before.gpu.position_range@[0],
        before.gpu.position_range@[1],
        before.gpu.position_range@[2],
    );
    assert(move_refused(before, light) <==> before.movability != Movability::Movable && exists|c: int|
        0 <= c < 3 && (!number::equal_numbers(
            #[trigger] before.gpu.position_range@[c],
            light.position_range@[c],
        ) || !number::equal_numbers(before.gpu.direction_outer@[c], light.direction_outer@[c])));
}

/// An insertion appends the light to the arena, to its handles and to the GPU light buffer,
/// under a handle that was never given out, and asks for a rebuild. Only a light that cannot
/// move invalidates a bake. All other lights and copies stay.
pub proof fn insertions_append_the_light(
    post: &Scene,
    pre: &Scene,
    id: LightId,
    record: LightRecord,
    other: int,
)
    requires
        post.inserted(pre, id, record),
    ensures
        post.light_set_dirty,
        !pre.lights.issued(id),
        post.lights.issued(id),
        post.lights.place(id) == Some(pre.lights.records@.len() as int),
        post.lights.records@.len() == pre.lights.records@.len() + 1,
        post.lights.records@[pre.lights.records@.len() as int] == record,
        post.lights.ids@.len() == pre.lights.ids@.len() + 1,
        post.lights.ids@[pre.lights.ids@.len() as int] == id,
        post.gpu_lights@.len() == pre.gpu_lights@.len() + 1,
        post.gpu_lights@[pre.gpu_lights@.len() as int] == record.gpu,
        0 <= other < pre.lights.records@.len() ==> post.lights.records@[other]
            == pre.lights.records@[other],
        0 <= other < pre.gpu_lights@.len() ==> post.gpu_lights@[other] == pre.gpu_lights@[other],
        record.movability == Movability::Movable ==> post.bake_invalidated == pre.bake_invalidated,
        record.movability != Movability::Movable ==> post.bake_invalidated,
        post.movable_lights_generation == pre.movable_lights_generation,
        post.gpu_movable_lights_generation == pre.gpu_movable_lights_generation,
        pre.movable_slot_of@.len() == 0 ==> post.movable_slot_of@.len() == 0,
        pre.movable_slot_of@.len() > 0 && pre.movable_slot_of@.len() == pre.lights.records@.len()
            && pre.gpu_lights@.len() < u32::MAX ==> {
            &&& post.movable_slot_of@.len() == pre.movable_slot_of@.len() + 1
            &&& post.movable_slot_of@[pre.lights.records@.len() as int] == pre.gpu_lights@.len()
        },
        0 <= other < pre.movable_slot_of@.len() ==> post.movable_slot_of@[other]
            == pre.movable_slot_of@[other],
{
}

/// Where the copy of a light is: in the slot that the slot map names, if that slot exists,
/// and at the light's own place as long as there is no slot map.
pub proof fn copies_lie_where_the_map_says(scene: &Scene, place: int)
    requires
        0 <= place,
    ensures
        scene.movable_slot_of@.len() == 0 && place < scene.gpu_lights@.len() ==> scene.copy_slot(
            place,
        ) == Some(place),
        scene.movable_slot_of@.len() == 0 && place >= scene.gpu_lights@.len() ==> scene.copy_slot(
            place,
        ) is None,
        place < scene.movable_slot_of@.len() && scene.movable_slot_of@[place]
            < scene.gpu_lights@.len() ==> scene.copy_slot(place) == Some(
            scene.movable_slot_of@[place] as int,
        ),
        place < scene.movable_slot_of@.len() && scene.movable_slot_of@[place]
            >= scene.gpu_lights@.len() ==> scene.copy_slot(place) is None,
        0 < scene.movable_slot_of@.len() <= place ==> scene.copy_slot(place) is None,
{
}

/// A removal takes the light out of the arena, whose last light moves to its place, and asks
/// for a rebuild. In a slot map that covers the arena, the entry of the last light moves
/// along, and the light whose copy was the last of the GPU light buffer points to the slot
/// that became free. A light without a copy leaves the GPU light buffer as it is.
pub proof fn removals_move_the_last_light(
    post: &Scene,
    pre: &Scene,
    id: LightId,
    place: int,
    other: int,
)
    requires
        post.removed(pre, id, place),
        0 <= place < pre.lights.records@.len(),
        pre.lights.ids@.len() == pre.lights.records@.len(),
        0 <= other < pre.lights.records@.len(),
        other != place,
    ensures
        post.light_set_dirty,
        !post.lights.live(id),
        post.bake_invalidated == pre.bake_invalidated,
        post.movable_lights_generation == pre.movable_lights_generation,
        post.gpu_movable_lights_generation == pre.gpu_movable_lights_generation,
        post.lights.records@.len() == pre.lights.records@.len() - 1,
        ({
            let last = pre.lights.records@.len() - 1;
            let now = if other == last {
                place
            } else {
                other
            };
            &&& post.lights.records@[now] == pre.lights.records@[other]
            &&& post.lights.ids@[now] == pre.lights.ids@[other]
            &&& pre.movable_slot_of@.len() == pre.lights.records@.len() ==> {
                let (before, after) = (pre.movable_slot_of@[other], post.movable_slot_of@[now]);
                &&& post.movable_slot_of@.len() == pre.movable_slot_of@.len() - 1
                &&& pre.movable_slot_of@[place] < pre.gpu_lights@.len() && before
                    == pre.gpu_lights@.len() - 1 ==> after == pre.movable_slot_of@[place]
                &&& pre.movable_slot_of@[place] >= pre.gpu_lights@.len() || before
                    != pre.gpu_lights@.len() - 1 ==> after == before
            }
        }),
        pre.movable_slot_of@.len() == 0 ==> post.movable_slot_of@.len() == 0,
        pre.movable_slot_of@.len() == 0 && place >= pre.gpu_lights@.len() ==> post.gpu_lights@
            == pre.gpu_lights@,
        place < pre.movable_slot_of@.len() && pre.movable_slot_of@[place] >= pre.gpu_lights@.len()
            ==> post.gpu_lights@ == pre.gpu_lights@,
{
}

} // verus!
