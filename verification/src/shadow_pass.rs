//! Shadow pass on a texture array: one layer per shadow face, in two atlases.
//!
//! The static atlas is rendered again when static topology changes, the dynamic one
//! when movable objects move. Where a light moved, its faces are spread over several
//! frames: at most [`MAX_LIGHT_FACES_PER_FRAME`] stale faces per caster and frame,
//! chosen round-robin.

use vstd::prelude::*;

use crate::bytes::{
    face_table, face_table_words, native_bytes, table_entries_hold_their_face, word_bytes,
};
use crate::errors::PassError;
use crate::{FACE_BUF_STRIDE, FACE_SLOTS, MAX_SHADOW_FACES};

verus! {

/// Texel resolution per atlas face.
pub const SHADOW_RES: u32 = 1024;

/// Cube faces per point-light caster.
pub const CASTER_FACES: usize = 6;

/// Shadow casters that fit the face slots.
pub const CASTER_SLOTS: usize = 42;

/// Maximum shadow faces re-rendered per caster per frame due to light movement.
pub const MAX_LIGHT_FACES_PER_FRAME: usize = 1;

/// Bytes of one non-indexed indirect draw command.
pub const CLEAR_STRIDE: u64 = 16;

/// Bytes of one per-face counter.
pub const FACE_COUNT_STRIDE: u64 = 4;

/// Identity of the scene buffers that the bind group refers to.
#[derive(Clone, Copy, Debug, PartialEq, Eq, Structural)]
pub struct ShadowBindings {
    pub shadow_matrices_ptr: usize,
    pub instances_ptr: usize,
}

/// What the pass reads of the scene.
#[derive(Clone, Copy)]
pub struct ShadowFrame<'a> {
    pub shadow_count: u32,
    pub static_draw_count: u32,
    pub movable_draw_count: u32,
    pub static_objects_generation: u64,
    pub movable_objects_generation: u64,
    /// Per caster: a number that differs from the one that a face was rendered at if
    /// the light moved since.
    pub per_caster_dirty_gen: &'a [u64; CASTER_SLOTS],
    pub has_main_scene: bool,
    pub bindings: ShadowBindings,
}

/// One render pass on a layer of the static atlas: clear it, then draw all static
/// commands, if there are any.
#[derive(Clone, Copy, Debug)]
pub struct StaticFace {
    pub face: u32,
    pub dyn_offset: u32,
    pub draws: u32,
}

/// How a layer of the dynamic atlas is rendered.
#[derive(Clone, Copy, Debug)]
pub enum DynamicWork {
    /// The light moved: clear the layer, draw all movable commands.
    LightDirty,
    /// Objects moved: keep the layer; GPU counters decide whether it is cleared and
    /// drawn. The offsets are those of the face's clear command and counters.
    ObjectDirty { clear_offset: u64, count_offset: u64 },
    /// Objects moved, and the device has no GPU-counted draws: clear the layer, draw
    /// all movable commands.
    ObjectDirtyFallback,
}

/// One render pass on a layer of the dynamic atlas. Nothing is drawn into it when
/// `draws` is 0.
#[derive(Clone, Copy, Debug)]
pub struct DynamicFace {
    pub face: u32,
    pub dyn_offset: u32,
    pub work: DynamicWork,
    pub draws: u32,
}

/// The render passes to encode.
pub struct ShadowPlan {
    /// The bind group must be created anew first.
    pub rebuild_bind_group: bool,
    /// The static atlas is rendered as a whole, for a new static topology.
    pub refresh_static: bool,
    pub static_faces: Vec<StaticFace>,
    pub dynamic_faces: Vec<DynamicFace>,
}

/// Face slots in use.
pub open spec fn faces_in_use(shadow_count: u32) -> int {
    if shadow_count <= MAX_SHADOW_FACES {
        shadow_count as int
    } else {
        MAX_SHADOW_FACES as int
    }
}

/// Casters all of whose faces are in use.
pub open spec fn casters_in_use(shadow_count: u32) -> int {
    let casters = faces_in_use(shadow_count) / (CASTER_FACES as int);
    if casters <= CASTER_SLOTS {
        casters
    } else {
        CASTER_SLOTS as int
    }
}

/// The face that a caster considers in the given step, when its cursor is at `cursor`.
pub open spec fn face_at(slot: int, cursor: int, step: int) -> int {
    slot * CASTER_FACES + (cursor + step) % (CASTER_FACES as int)
}

/// The step in which a caster considers the face.
pub open spec fn step_of(face: int, cursor: int) -> int {
    (face - cursor) % (CASTER_FACES as int)
}

/// 1 if the condition holds, else 0.
pub open spec fn one_if(condition: bool) -> int {
    if condition {
        1
    } else {
        0
    }
}

/// Stale faces that a caster meets in its first `n` steps.
pub open spec fn stale_steps(gens: Seq<u64>, desired: u64, slot: int, cursor: int, n: int) -> int
    decreases n,
{
    if n <= 0 {
        0
    } else {
        stale_steps(gens, desired, slot, cursor, n - 1) + one_if(
            gens[face_at(slot, cursor, n - 1)] != desired,
        )
    }
}

/// Stale faces of a caster.
#[verifier::opaque]
pub open spec fn stale_count(gens: Seq<u64>, desired: u64, slot: int) -> int {
    let base = slot * CASTER_FACES;
    one_if(gens[base] != desired) + one_if(gens[base + 1] != desired) + one_if(
        gens[base + 2] != desired,
    ) + one_if(gens[base + 3] != desired) + one_if(gens[base + 4] != desired) + one_if(
        gens[base + 5] != desired,
    )
}

/// State of the shadow pass.
pub struct ShadowPass {
    /// Last static generation rendered. `None` = never rendered.
    pub static_atlas_cache_gen: Option<u64>,
    /// The caster generation that each face was last rendered at.
    pub face_light_gen: [u64; FACE_SLOTS],
    /// Next cube face to consider first when spreading a caster's faces.
    pub caster_rr_cursor: [u8; CASTER_SLOTS],
    /// Shadow count at the last static render.
    pub last_rendered_shadow_count: u32,
    /// Movable generation at the last dynamic render.
    pub last_movable_objects_gen: u64,
    /// The device can draw indirect lists whose length a GPU buffer holds.
    pub supports_multi_draw_count: bool,
    /// The buffers that the current bind group refers to.
    pub bg_0_key: Option<ShadowBindings>,
}

impl ShadowPass {
    /// The caches are empty: no face was rendered at any generation.
    pub open spec fn caches_empty(&self) -> bool {
        &&& self.static_atlas_cache_gen is None
        &&& forall|f: int| 0 <= f < FACE_SLOTS ==> #[trigger] self.face_light_gen@[f] == 0
        &&& forall|c: int| 0 <= c < CASTER_SLOTS ==> #[trigger] self.caster_rr_cursor@[c] == 0
        &&& self.last_rendered_shadow_count == 0
        &&& self.last_movable_objects_gen == u64::MAX
    }

    /// The face is rendered this frame because its caster's light moved: it is stale,
    /// and it is among the first stale faces, counted from the caster's cursor, that
    /// fit the budget.
    pub open spec fn picked(&self, frame: ShadowFrame, face: int) -> bool {
        let slot = face / (CASTER_FACES as int);
        let cursor = self.caster_rr_cursor@[slot] as int;
        let desired = frame.per_caster_dirty_gen@[slot];
        &&& 0 <= slot < casters_in_use(frame.shadow_count)
        &&& self.face_light_gen@[face] != desired
        &&& stale_steps(self.face_light_gen@, desired, slot, cursor, step_of(face, cursor))
            < MAX_LIGHT_FACES_PER_FRAME
    }

    /// Number of faces of a caster that are rendered this frame because its light
    /// moved.
    pub open spec fn picked_count(&self, frame: ShadowFrame, slot: int) -> int {
        let stale = stale_steps(
            self.face_light_gen@,
            frame.per_caster_dirty_gen@[slot],
            slot,
            self.caster_rr_cursor@[slot] as int,
            CASTER_FACES as int,
        );
        if stale <= MAX_LIGHT_FACES_PER_FRAME {
            stale
        } else {
            MAX_LIGHT_FACES_PER_FRAME as int
        }
    }

    /// Some face is rendered because a light moved.
    pub open spec fn any_picked(&self, frame: ShadowFrame) -> bool {
        exists|face: int| 0 <= face < FACE_SLOTS && #[trigger] self.picked(frame, face)
    }

    /// The static atlas does not hold the current static topology.
    pub open spec fn needs_static(&self, frame: ShadowFrame) -> bool {
        ||| self.static_atlas_cache_gen != Some(frame.static_objects_generation)
        ||| frame.shadow_count != self.last_rendered_shadow_count
    }

    /// A movable object moved since the last dynamic render.
    pub open spec fn objects_moved(&self, frame: ShadowFrame) -> bool {
        frame.movable_objects_generation != self.last_movable_objects_gen
    }

    /// Nothing is rendered this frame.
    pub open spec fn quiet(&self, frame: ShadowFrame) -> bool {
        ||| frame.shadow_count == 0
        ||| !self.needs_static(frame) && !self.any_picked(frame) && !self.objects_moved(frame)
    }

    /// The generations and cursors of `self` are those of `pre` after the faces of
    /// the frame were picked: picked faces count as rendered at their caster's
    /// generation, and the cursors moved on by the number of picks.
    pub open spec fn faces_picked(&self, pre: &ShadowPass, frame: ShadowFrame) -> bool {
        &&& forall|f: int|
            0 <= f < FACE_SLOTS ==> #[trigger] self.face_light_gen@[f] == (if pre.picked(frame, f) {
                frame.per_caster_dirty_gen@[f / (CASTER_FACES as int)]
            } else {
                pre.face_light_gen@[f]
            })
        &&& forall|c: int|
            0 <= c < CASTER_SLOTS ==> #[trigger] self.caster_rr_cursor@[c] == (if c
                < casters_in_use(frame.shadow_count) && pre.picked_count(frame, c) > 0 {
                ((pre.caster_rr_cursor@[c] + pre.picked_count(frame, c)) % (CASTER_FACES as int)) as u8
            } else {
                pre.caster_rr_cursor@[c]
            })
    }

    /// The generations and cursors of `self` are those of `pre`.
    pub open spec fn faces_kept(&self, pre: &ShadowPass) -> bool {
        &&& self.face_light_gen@ == pre.face_light_gen@
        &&& self.caster_rr_cursor@ == pre.caster_rr_cursor@
    }

    /// What a run makes of the pass. A run that renders nothing, be it for want of work or
    /// of a scene, leaves all faces as they were last rendered.
    pub open spec fn executed(&self, pre: &ShadowPass, frame: ShadowFrame) -> bool {
        let renders = !pre.quiet(frame) && frame.has_main_scene;
        &&& self.supports_multi_draw_count == pre.supports_multi_draw_count
        &&& self.bg_0_key == (if renders {
            Some(frame.bindings)
        } else {
            pre.bg_0_key
        })
        &&& if frame.shadow_count == 0 {
            self.caches_empty()
        } else {
            &&& if renders {
                self.faces_picked(pre, frame)
            } else {
                self.faces_kept(pre)
            }
            &&& self.static_atlas_cache_gen == (if renders && pre.needs_static(frame) {
                Some(frame.static_objects_generation)
            } else {
                pre.static_atlas_cache_gen
            })
            &&& self.last_rendered_shadow_count == (if renders && pre.needs_static(frame) {
                frame.shadow_count
            } else {
                pre.last_rendered_shadow_count
            })
            &&& self.last_movable_objects_gen == (if renders && (pre.any_picked(frame)
                || pre.objects_moved(frame)) {
                frame.movable_objects_generation
            } else {
                pre.last_movable_objects_gen
            })
        }
    }

    /// The layer of the static atlas is rendered. Without static draws a layer is
    /// touched only to clear it after a change of topology.
    pub open spec fn static_due(&self, frame: ShadowFrame, face: int) -> bool {
        self.needs_static(frame) || frame.static_draw_count > 0 && self.picked(frame, face)
    }

    /// The work on the static atlas below face `n`, in ascending order.
    pub open spec fn static_work(&self, frame: ShadowFrame, n: int) -> Seq<StaticFace>
        decreases n,
    {
        if n <= 0 {
            Seq::empty()
        } else if self.static_due(frame, n - 1) {
            self.static_work(frame, n - 1).push(
                StaticFace {
                    face: (n - 1) as u32,
                    dyn_offset: ((n - 1) * FACE_BUF_STRIDE) as u32,
                    draws: frame.static_draw_count,
                },
            )
        } else {
            self.static_work(frame, n - 1)
        }
    }

    /// How the layer of the dynamic atlas is rendered, if it is. A moved light takes
    /// precedence over moved objects.
    pub open spec fn dynamic_mode(&self, frame: ShadowFrame, face: int) -> Option<DynamicWork> {
        if self.picked(frame, face) {
            Some(DynamicWork::LightDirty)
        } else if !self.objects_moved(frame) {
            None
        } else if self.supports_multi_draw_count {
            Some(
                DynamicWork::ObjectDirty {
                    clear_offset: (face * CLEAR_STRIDE) as u64,
                    count_offset: (face * FACE_COUNT_STRIDE) as u64,
                },
            )
        } else {
            Some(DynamicWork::ObjectDirtyFallback)
        }
    }

    /// The work on the dynamic atlas below face `n`, in ascending order.
    pub open spec fn dynamic_work(&self, frame: ShadowFrame, n: int) -> Seq<DynamicFace>
        decreases n,
    {
        if n <= 0 {
            Seq::empty()
        } else {
            match self.dynamic_mode(frame, n - 1) {
                Some(work) => self.dynamic_work(frame, n - 1).push(
                    DynamicFace {
                        face: (n - 1) as u32,
                        dyn_offset: ((n - 1) * FACE_BUF_STRIDE) as u32,
                        work,
                        draws: frame.movable_draw_count,
                    },
                ),
                None => self.dynamic_work(frame, n - 1),
            }
        }
    }

    /// The pass before the first frame.
    pub fn new(supports_multi_draw_count: bool) -> (pass: Self)
        ensures
            pass.caches_empty(),
            pass.supports_multi_draw_count == supports_multi_draw_count,
            pass.bg_0_key is None,
    {
        ShadowPass {
            static_atlas_cache_gen: None,
            face_light_gen: [0u64; 256],
            caster_rr_cursor: [0u8; 42],
            last_rendered_shadow_count: 0,
            last_movable_objects_gen: u64::MAX,
            supports_multi_draw_count,
            bg_0_key: None,
        }
    }

    /// The face-index table: the entry of face `f` holds `f`.
    pub fn face_index_table() -> (bytes: Vec<u8>)
        ensures
            native_bytes(face_table_words(0), bytes@),
            bytes@.len() == MAX_SHADOW_FACES * FACE_BUF_STRIDE,
    {
        face_table(0)
    }

    /// The clear commands: for each face one command that draws three vertices once.
    pub fn clear_command_table() -> (bytes: Vec<u8>)
        ensures
            native_bytes(clear_command_words(), bytes@),
            bytes@.len() == MAX_SHADOW_FACES * CLEAR_STRIDE,
    {
        let mut words: Vec<u32> = Vec::new();
        let mut i: usize = 0;
        while i < FACE_SLOTS
            invariant
                i <= FACE_SLOTS,
                words@ == clear_command_words().take(4 * i as int),
            decreases FACE_SLOTS - i,
        {
            words.push(3);
            words.push(1);
            words.push(0);
            words.push(0);
            i += 1;
            assert(words@ =~= clear_command_words().take(4 * i as int));
        }
        assert(clear_command_words().take(4 * i as int) =~= clear_command_words());
        word_bytes(words.as_slice())
    }
}

/// The cube faces of a caster come round once: within a round, faces and steps
/// determine each other.
pub proof fn rounds_visit_each_face_once(slot: int, cursor: int, step: int, face: int)
    requires
        0 <= slot,
        0 <= cursor,
        0 <= step < CASTER_FACES,
    ensures
        step_of(face_at(slot, cursor, step), cursor) == step,
        face_at(slot, cursor, step) / (CASTER_FACES as int) == slot,
        face / (CASTER_FACES as int) == slot ==> face_at(slot, cursor, step_of(face, cursor)) == face,
        0 <= step_of(face, cursor) < CASTER_FACES,
{
}

/// Looking further finds no fewer stale faces.
proof fn stale_steps_grow(gens: Seq<u64>, desired: u64, slot: int, cursor: int, n: int, m: int)
    requires
        n <= m,
    ensures
        0 <= stale_steps(gens, desired, slot, cursor, n) <= stale_steps(
            gens,
            desired,
            slot,
            cursor,
            m,
        ),
    decreases m,
{
    if m > 0 && n < m {
        stale_steps_grow(gens, desired, slot, cursor, n, m - 1);
    } else if m > 0 {
        stale_steps_grow(gens, desired, slot, cursor, n - 1, m - 1);
    }
}

impl ShadowPass {
    /// Picks the faces of one caster.
    fn pick_caster(
        &mut self,
        slot: usize,
        frame: &ShadowFrame,
        render_face: &mut [bool; FACE_SLOTS],
        Ghost(pre): Ghost<ShadowPass>,
    ) -> (rendered: usize)
        requires
            slot < casters_in_use(frame.shadow_count),
            forall|f: int|
                slot * CASTER_FACES <= f < (slot + 1) * CASTER_FACES ==> #[trigger] old(self).face_light_gen@[f] == pre.face_light_gen@[f],
            forall|f: int|
                slot * CASTER_FACES <= f < (slot + 1) * CASTER_FACES ==> !#[trigger] old(render_face)@[f],
            old(self).caster_rr_cursor@[slot as int] == pre.caster_rr_cursor@[slot as int],
        ensures
            rendered == pre.picked_count(*frame, slot as int),
            forall|f: int|
                0 <= f < FACE_SLOTS ==> #[trigger] final(self).face_light_gen@[f] == (if f / 6
                    == slot && pre.picked(*frame, f) {
                    frame.per_caster_dirty_gen@[slot as int]
                } else {
                    old(self).face_light_gen@[f]
                }),
            forall|f: int|
                0 <= f < FACE_SLOTS ==> #[trigger] final(render_face)@[f] == (if f / 6 == slot {
                    pre.picked(*frame, f)
                } else {
                    old(render_face)@[f]
                }),
            forall|c: int|
                0 <= c < CASTER_SLOTS ==> #[trigger] final(self).caster_rr_cursor@[c] == (if c
                    == slot && rendered > 0 {
                    ((pre.caster_rr_cursor@[c] + rendered) % 6) as u8
                } else {
                    old(self).caster_rr_cursor@[c]
                }),
            final(self).static_atlas_cache_gen == old(self).static_atlas_cache_gen,
            final(self).last_rendered_shadow_count == old(self).last_rendered_shadow_count,
            final(self).last_movable_objects_gen == old(self).last_movable_objects_gen,
            final(self).supports_multi_draw_count == old(self).supports_multi_draw_count,
            final(self).bg_0_key == old(self).bg_0_key,
    {
        let desired: u64 = frame.per_caster_dirty_gen[slot];
        let cursor: usize = self.caster_rr_cursor[slot] as usize;
        let mut rendered: usize = 0;
        let mut step: usize = 0;
        while step < CASTER_FACES && rendered < MAX_LIGHT_FACES_PER_FRAME
            invariant
                step <= CASTER_FACES,
                rendered <= MAX_LIGHT_FACES_PER_FRAME,
                slot < casters_in_use(frame.shadow_count),
                cursor == pre.caster_rr_cursor@[slot as int],
                desired == frame.per_caster_dirty_gen@[slot as int],
                rendered == stale_steps(
                    pre.face_light_gen@,
                    desired,
                    slot as int,
                    cursor as int,
                    step as int,
                ),
                forall|f: int|
                    0 <= f < FACE_SLOTS ==> #[trigger] self.face_light_gen@[f] == (if f / 6 == slot
                        && step_of(f, cursor as int) < step && pre.picked(*frame, f) {
                        desired
                    } else {
                        old(self).face_light_gen@[f]
                    }),
                forall|f: int|
                    0 <= f < FACE_SLOTS ==> #[trigger] render_face@[f] == (if f / 6 == slot {
                        step_of(f, cursor as int) < step && pre.picked(*frame, f)
                    } else {
                        old(render_face)@[f]
                    }),
                forall|f: int|
                    slot * CASTER_FACES <= f < (slot + 1) * CASTER_FACES ==> #[trigger] old(self).face_light_gen@[f] == pre.face_light_gen@[f],
                self.caster_rr_cursor == old(self).caster_rr_cursor,
                self.static_atlas_cache_gen == old(self).static_atlas_cache_gen,
                self.last_rendered_shadow_count == old(self).last_rendered_shadow_count,
                self.last_movable_objects_gen == old(self).last_movable_objects_gen,
                self.supports_multi_draw_count == old(self).supports_multi_draw_count,
                self.bg_0_key == old(self).bg_0_key,
            decreases CASTER_FACES - step,
        {
            let f: usize = (cursor + step) % CASTER_FACES;
            let face: usize = slot * CASTER_FACES + f;
            let ghost before = *self;
            proof {
                rounds_visit_each_face_once(slot as int, cursor as int, step as int, face as int);
                assert(face == face_at(slot as int, cursor as int, step as int));
                assert(self.face_light_gen@[face as int] == pre.face_light_gen@[face as int]);
                assert forall|g: int| 0 <= g < FACE_SLOTS && g / 6 == slot && step_of(
                    g,
                    cursor as int,
                ) == step implies g == face by {
                    rounds_visit_each_face_once(slot as int, cursor as int, step as int, g);
                }
            }
            if self.face_light_gen[face] != desired {
                render_face[face] = true;
                self.face_light_gen[face] = desired;
                rendered += 1;
            }
            step += 1;
        }
        proof {
            let gens = pre.face_light_gen@;
            stale_steps_grow(gens, desired, slot as int, cursor as int, step as int, 6);
            assert forall|g: int|
                0 <= g < FACE_SLOTS && g / 6 == slot && step <= step_of(
                    g,
                    cursor as int,
                ) implies !pre.picked(*frame, g) by {
                stale_steps_grow(
                    gens,
                    desired,
                    slot as int,
                    cursor as int,
                    step as int,
                    step_of(g, cursor as int),
                );
                rounds_visit_each_face_once(slot as int, cursor as int, 0, g);
            }
        }
        // Rotate the starting face so continuous motion cycles all six faces.
        if rendered > 0 {
            self.caster_rr_cursor[slot] = ((cursor + rendered) % CASTER_FACES) as u8;
        }
        rendered
    }

    /// Picks the faces that are rendered because their light moved.
    fn pick_faces(&mut self, frame: &ShadowFrame) -> (picks: ([bool; FACE_SLOTS], bool))
        ensures
            final(self).faces_picked(old(self), *frame),
            forall|f: int|
                0 <= f < FACE_SLOTS ==> #[trigger] picks.0@[f] == old(self).picked(*frame, f),
            picks.1 == old(self).any_picked(*frame),
            final(self).static_atlas_cache_gen == old(self).static_atlas_cache_gen,
            final(self).last_rendered_shadow_count == old(self).last_rendered_shadow_count,
            final(self).last_movable_objects_gen == old(self).last_movable_objects_gen,
            final(self).supports_multi_draw_count == old(self).supports_multi_draw_count,
            final(self).bg_0_key == old(self).bg_0_key,
    {
        let ghost pre = *self;
        let face_count: usize = if frame.shadow_count <= MAX_SHADOW_FACES {
            frame.shadow_count as usize
        } else {
            FACE_SLOTS
        };
        let whole: usize = face_count / CASTER_FACES;
        let caster_count: usize = if whole <= CASTER_SLOTS {
            whole
        } else {
            CASTER_SLOTS
        };
        let mut render_face: [bool; FACE_SLOTS] = [false; 256];
        let mut any_light_render: bool = false;
        let mut slot: usize = 0;
        while slot < caster_count
            invariant
                slot <= caster_count,
                caster_count == casters_in_use(frame.shadow_count),
                forall|f: int|
                    0 <= f < FACE_SLOTS ==> #[trigger] self.face_light_gen@[f] == (if f / 6 < slot
                        && pre.picked(*frame, f) {
                        frame.per_caster_dirty_gen@[f / 6]
                    } else {
                        pre.face_light_gen@[f]
                    }),
                forall|f: int|
                    0 <= f < FACE_SLOTS ==> #[trigger] render_face@[f] == (f / 6 < slot && pre.picked(
                        *frame,
                        f,
                    )),
                forall|c: int|
                    0 <= c < CASTER_SLOTS ==> #[trigger] self.caster_rr_cursor@[c] == (if c < slot
                        && pre.picked_count(*frame, c) > 0 {
                        ((pre.caster_rr_cursor@[c] + pre.picked_count(*frame, c)) % 6) as u8
                    } else {
                        pre.caster_rr_cursor@[c]
                    }),
                any_light_render == exists|f: int|
                    0 <= f < FACE_SLOTS && f / 6 < slot && #[trigger] pre.picked(*frame, f),
                self.static_atlas_cache_gen == pre.static_atlas_cache_gen,
                self.last_rendered_shadow_count == pre.last_rendered_shadow_count,
                self.last_movable_objects_gen == pre.last_movable_objects_gen,
                self.supports_multi_draw_count == pre.supports_multi_draw_count,
                self.bg_0_key == pre.bg_0_key,
            decreases caster_count - slot,
        {
            let rendered: usize = self.pick_caster(slot, frame, &mut render_face, Ghost(pre));
            proof {
                caster_has_picks(&pre, *frame, slot as int);
            }
            if rendered > 0 {
                any_light_render = true;
            }
            slot += 1;
        }
        (render_face, any_light_render)
    }
}

impl ShadowPass {
    /// Plans the render passes of this frame, if there are any.
    #[verifier::rlimit(40)]
    pub fn execute(&mut self, frame: &ShadowFrame) -> (result: Result<
        Option<ShadowPlan>,
        PassError,
    >)
        ensures
            final(self).executed(old(self), *frame),
            match result {
                Ok(None) => old(self).quiet(*frame),
                Err(PassError::InvalidPassConfig(text)) => {
                    &&& !old(self).quiet(*frame) && !frame.has_main_scene
                    &&& text@ == "ShadowPass requires main_scene"@
                },
                Ok(Some(plan)) => {
                    &&& !old(self).quiet(*frame) && frame.has_main_scene
                    &&& plan.rebuild_bind_group == (old(self).bg_0_key != Some(frame.bindings))
                    &&& plan.refresh_static == old(self).needs_static(*frame)
                    &&& plan.static_faces@ == old(self).static_work(
                        *frame,
                        faces_in_use(frame.shadow_count),
                    )
                    &&& plan.dynamic_faces@ == old(self).dynamic_work(
                        *frame,
                        faces_in_use(frame.shadow_count),
                    )
                },
            },
            result is Ok && result->Ok_0 is None <==> {
                ||| frame.shadow_count == 0
                ||| {
                    &&& old(self).static_atlas_cache_gen == Some(frame.static_objects_generation)
                    &&& old(self).last_rendered_shadow_count == frame.shadow_count
                    &&& old(self).last_movable_objects_gen == frame.movable_objects_generation
                    &&& forall|f: int|
                        0 <= f < 252 && f / 6 < frame.shadow_count as int / 6
                            ==> #[trigger] old(self).face_light_gen@[f]
                            == frame.per_caster_dirty_gen@[f / 6]
                }
            },
            result is Ok && result->Ok_0 is Some ==> {
                let plan = result->Ok_0->0;
                plan.refresh_static <==> {
                    ||| old(self).static_atlas_cache_gen != Some(frame.static_objects_generation)
                    ||| old(self).last_rendered_shadow_count != frame.shadow_count
                }
            },
            // Static layers: all of them for a new topology, else those whose light moved,
            // each once and in order, with its own table entry and all draws.
            result is Ok && result->Ok_0 is Some ==> {
                let statics = result->Ok_0->0.static_faces@;
                forall|k: int|
                    0 <= k < statics.len() ==> {
                        let item = #[trigger] statics[k];
                        &&& item.face < 256
                        &&& item.face < frame.shadow_count
                        &&& item.dyn_offset == item.face * 256
                        &&& item.draws == frame.static_draw_count
                        &&& result->Ok_0->0.refresh_static || frame.static_draw_count > 0 && old(self).picked(
                            *frame,
                            item.face as int,
                        )
                    }
            },
            result is Ok && result->Ok_0 is Some ==> {
                let statics = result->Ok_0->0.static_faces@;
                result->Ok_0->0.refresh_static ==> {
                    &&& frame.shadow_count <= 256 ==> statics.len() == frame.shadow_count
                    &&& frame.shadow_count > 256 ==> statics.len() == 256
                    &&& forall|k: int| 0 <= k < statics.len() ==> (#[trigger] statics[k]).face == k
                }
            },
            result is Ok && result->Ok_0 is Some ==> {
                let statics = result->Ok_0->0.static_faces@;
                forall|f: int|
                    0 <= f < 256 && frame.static_draw_count > 0 && #[trigger] old(self).picked(
                        *frame,
                        f,
                    ) ==> exists|k: int| 0 <= k < statics.len() && (#[trigger] statics[k]).face == f
            },
            result is Ok && result->Ok_0 is Some ==> {
                let statics = result->Ok_0->0.static_faces@;
                forall|k: int, l: int|
                    0 <= k < l < statics.len() ==> (#[trigger] statics[k]).face < (
                    #[trigger] statics[l]).face
            },
            // Dynamic layers: those whose light moved, and all others if objects moved.
            result is Ok && result->Ok_0 is Some ==> {
                let dynamics = result->Ok_0->0.dynamic_faces@;
                forall|k: int|
                    0 <= k < dynamics.len() ==> {
                        let item = #[trigger] dynamics[k];
                        &&& item.face < 256
                        &&& item.face < frame.shadow_count
                        &&& item.dyn_offset == item.face * 256
                        &&& item.draws == frame.movable_draw_count
                    }
            },
            result is Ok && result->Ok_0 is Some ==> {
                let dynamics = result->Ok_0->0.dynamic_faces@;
                forall|k: int|
                    0 <= k < dynamics.len() ==> {
                        let item = #[trigger] dynamics[k];
                        &&& item.work is LightDirty <==> old(self).picked(*frame, item.face as int)
                        &&& item.work !is LightDirty ==> old(self).last_movable_objects_gen
                            != frame.movable_objects_generation
                        &&& item.work is ObjectDirty ==> old(self).supports_multi_draw_count
                            && item.work->clear_offset == item.face * 16 && item.work->count_offset
                            == item.face * 4
                        &&& item.work is ObjectDirtyFallback
                            ==> !old(self).supports_multi_draw_count
                    }
            },
            result is Ok && result->Ok_0 is Some ==> {
                let dynamics = result->Ok_0->0.dynamic_faces@;
                old(self).last_movable_objects_gen != frame.movable_objects_generation ==> {
                    &&& frame.shadow_count <= 256 ==> dynamics.len() == frame.shadow_count
                    &&& frame.shadow_count > 256 ==> dynamics.len() == 256
                    &&& forall|k: int| 0 <= k < dynamics.len() ==> (#[trigger] dynamics[k]).face == k
                }
            },
            result is Ok && result->Ok_0 is Some ==> {
                let dynamics = result->Ok_0->0.dynamic_faces@;
                forall|f: int|
                    0 <= f < 256 && #[trigger] old(self).picked(*frame, f) ==> exists|k: int|
                        0 <= k < dynamics.len() && (#[trigger] dynamics[k]).face == f
            },
            result is Ok && result->Ok_0 is Some ==> {
                let dynamics = result->Ok_0->0.dynamic_faces@;
                forall|k: int, l: int|
                    0 <= k < l < dynamics.len() ==> (#[trigger] dynamics[k]).face < (
                    #[trigger] dynamics[l]).face
            },
    {
        let ghost pre = *self;
        let face_count: usize = if frame.shadow_count <= MAX_SHADOW_FACES {
            frame.shadow_count as usize
        } else {
            FACE_SLOTS
        };
        if face_count == 0 {
            self.face_light_gen = [0u64; 256];
            self.caster_rr_cursor = [0u8; 42];
            self.last_rendered_shadow_count = 0;
            self.static_atlas_cache_gen = None;
            self.last_movable_objects_gen = u64::MAX;
            return Ok(None);
        }
        let cached: bool = match self.static_atlas_cache_gen {
            Some(generation) => generation == frame.static_objects_generation,
            None => false,
        };
        let need_static: bool = !cached || frame.shadow_count != self.last_rendered_shadow_count;
        let light_gens: [u64; FACE_SLOTS] = self.face_light_gen;
        let cursors: [u8; CASTER_SLOTS] = self.caster_rr_cursor;
        let (render_face, any_light_render) = self.pick_faces(frame);
        proof {
            stale_faces_are_noticed(&pre, *frame);
        }
        let objects_moved: bool = frame.movable_objects_generation != self.last_movable_objects_gen;

        if !need_static && !any_light_render && !objects_moved {
            proof {
                no_picks_keep_all(self, &pre, *frame);
            }
            return Ok(None);
        }
        if !frame.has_main_scene {
            // Nothing is rendered, so the picked faces stay stale.
            self.face_light_gen = light_gens;
            self.caster_rr_cursor = cursors;
            return Err(PassError::InvalidPassConfig("ShadowPass requires main_scene"));
        }
        let rebuild_bind_group: bool = match self.bg_0_key {
            Some(current) => current != frame.bindings,
            None => true,
        };
        self.bg_0_key = Some(frame.bindings);

        let mut static_faces: Vec<StaticFace> = Vec::new();
        let mut dynamic_faces: Vec<DynamicFace> = Vec::new();
        let mut face: usize = 0;
        while face < face_count
            invariant
                face <= face_count <= FACE_SLOTS,
                need_static == pre.needs_static(*frame),
                objects_moved == pre.objects_moved(*frame),
                self.supports_multi_draw_count == pre.supports_multi_draw_count,
                forall|f: int|
                    0 <= f < FACE_SLOTS ==> #[trigger] render_face@[f] == pre.picked(*frame, f),
                static_faces@ == pre.static_work(*frame, face as int),
                dynamic_faces@ == pre.dynamic_work(*frame, face as int),
            decreases face_count - face,
        {
            let light_dirty: bool = render_face[face];
            let dyn_offset: u32 = (face as u64 * FACE_BUF_STRIDE) as u32;
            if need_static || frame.static_draw_count > 0 && light_dirty {
                static_faces.push(
                    StaticFace { face: face as u32, dyn_offset, draws: frame.static_draw_count },
                );
            }
            if light_dirty || objects_moved {
                let work: DynamicWork = if light_dirty {
                    DynamicWork::LightDirty
                } else if self.supports_multi_draw_count {
                    DynamicWork::ObjectDirty {
                        clear_offset: face as u64 * CLEAR_STRIDE,
                        count_offset: face as u64 * FACE_COUNT_STRIDE,
                    }
                } else {
                    DynamicWork::ObjectDirtyFallback
                };
                dynamic_faces.push(
                    DynamicFace {
                        face: face as u32,
                        dyn_offset,
                        work,
                        draws: frame.movable_draw_count,
                    },
                );
            }
            face += 1;
        }
        if need_static {
            self.static_atlas_cache_gen = Some(frame.static_objects_generation);
            self.last_rendered_shadow_count = frame.shadow_count;
        }
        if any_light_render || objects_moved {
            self.last_movable_objects_gen = frame.movable_objects_generation;
        }
        let plan: ShadowPlan = ShadowPlan {
            rebuild_bind_group,
            refresh_static: need_static,
            static_faces,
            dynamic_faces,
        };
        proof {
            static_layers_by_field(old(self), *frame, plan.static_faces@);
            dynamic_layers_by_field(old(self), *frame, plan.dynamic_faces@);
        }
        Ok(Some(plan))
    }
}

/// A caster has a picked face exactly when its count of picks is positive.
proof fn caster_has_picks(pass: &ShadowPass, frame: ShadowFrame, slot: int)
    requires
        0 <= slot < casters_in_use(frame.shadow_count),
    ensures
        pass.picked_count(frame, slot) > 0 <==> exists|f: int|
            0 <= f < FACE_SLOTS && f / 6 == slot && #[trigger] pass.picked(frame, f),
{
    let gens = pass.face_light_gen@;
    let desired = frame.per_caster_dirty_gen@[slot];
    let cursor = pass.caster_rr_cursor@[slot] as int;
    if stale_steps(gens, desired, slot, cursor, 6) > 0 {
        let step = first_stale_step(gens, desired, slot, cursor, 6);
        rounds_visit_each_face_once(slot, cursor, step, 0);
        assert(pass.picked(frame, face_at(slot, cursor, step)));
    }
    assert forall|f: int|
        0 <= f < FACE_SLOTS && f / 6 == slot && #[trigger] pass.picked(
            frame,
            f,
        ) implies stale_steps(gens, desired, slot, cursor, 6) > 0 by {
        rounds_visit_each_face_once(slot, cursor, 0, f);
        let step = step_of(f, cursor);
        stale_steps_grow(gens, desired, slot, cursor, step + 1, 6);
        stale_steps_grow(gens, desired, slot, cursor, step, step);
    }
    stale_steps_grow(gens, desired, slot, cursor, 0, 6);
}

/// No stale face is met in the first `n` steps exactly when each of them meets a fresh one.
proof fn fresh_steps_count_nothing(
    gens: Seq<u64>,
    desired: u64,
    slot: int,
    cursor: int,
    n: int,
)
    ensures
        stale_steps(gens, desired, slot, cursor, n) == 0 <==> forall|step: int|
            0 <= step < n ==> gens[#[trigger] face_at(slot, cursor, step)] == desired,
    decreases n,
{
    if n > 0 {
        fresh_steps_count_nothing(gens, desired, slot, cursor, n - 1);
        stale_steps_grow(gens, desired, slot, cursor, n - 1, n - 1);
        let last = face_at(slot, cursor, n - 1);
        if stale_steps(gens, desired, slot, cursor, n) == 0 {
            assert forall|step: int| 0 <= step < n implies gens[#[trigger] face_at(
                slot,
                cursor,
                step,
            )] == desired by {}
        }
    }
}

/// The pick of a caster: among the six faces of a light whose slots are in use, a face is
/// rendered for the light's sake exactly when it was last rendered at another generation
/// than the light's, and all faces of the light that come before it, counted from the
/// caster's cursor and around, were rendered at the light's generation.
pub proof fn the_first_stale_face_is_picked(pass: &ShadowPass, frame: ShadowFrame, face: int)
    requires
        0 <= face < 256,
    ensures
        ({
            let slot = face / 6;
            let cursor = pass.caster_rr_cursor@[slot] as int;
            let desired = frame.per_caster_dirty_gen@[slot];
            pass.picked(frame, face) <==> {
                &&& slot < 42
                &&& slot < frame.shadow_count as int / 6
                &&& pass.face_light_gen@[face] != desired
                &&& forall|other: int|
                    6 * slot <= other < 6 * slot + 6 && (other - cursor) % 6 < (face - cursor) % 6
                        ==> #[trigger] pass.face_light_gen@[other] == desired
            }
        }),
{
    let slot = face / 6;
    let gens = pass.face_light_gen@;
    let cursor = pass.caster_rr_cursor@[slot] as int;
    let desired = frame.per_caster_dirty_gen@[slot];
    let step = step_of(face, cursor);
    if slot < 42 {
        rounds_visit_each_face_once(slot, cursor, 0, face);
        fresh_steps_count_nothing(gens, desired, slot, cursor, step);
        stale_steps_grow(gens, desired, slot, cursor, step, step);
        assert(stale_steps(gens, desired, slot, cursor, step) < 1 <==> stale_steps(
            gens,
            desired,
            slot,
            cursor,
            step,
        ) == 0);
        if stale_steps(gens, desired, slot, cursor, step) == 0 {
            assert forall|other: int|
                6 * slot <= other < 6 * slot + 6 && (other - cursor) % 6 < step implies
                #[trigger] gens[other] == desired by {
                rounds_visit_each_face_once(slot, cursor, 0, other);
                assert(face_at(slot, cursor, step_of(other, cursor)) == other);
            }
        }
        if forall|other: int|
            6 * slot <= other < 6 * slot + 6 && (other - cursor) % 6 < step
                ==> #[trigger] gens[other] == desired {
            assert forall|s: int| 0 <= s < step implies gens[#[trigger] face_at(slot, cursor, s)]
                == desired by {
                rounds_visit_each_face_once(slot, cursor, s, 0);
                let other = face_at(slot, cursor, s);
                assert((other - cursor) % 6 == s);
                assert(gens[other] == desired);
            }
        }
    }
}

/// Some face is picked exactly when some face of a caster in use is stale.
proof fn stale_faces_are_noticed(pass: &ShadowPass, frame: ShadowFrame)
    ensures
        pass.any_picked(frame) <==> exists|f: int|
            0 <= f < 252 && f / 6 < frame.shadow_count as int / 6
                && #[trigger] pass.face_light_gen@[f] != frame.per_caster_dirty_gen@[f / 6],
{
    if pass.any_picked(frame) {
        let f = choose|f: int| 0 <= f < FACE_SLOTS && #[trigger] pass.picked(frame, f);
        assert(pass.face_light_gen@[f] != frame.per_caster_dirty_gen@[f / 6]);
    }
    if exists|f: int|
        0 <= f < 252 && f / 6 < frame.shadow_count as int / 6 && #[trigger] pass.face_light_gen@[f]
            != frame.per_caster_dirty_gen@[f / 6] {
        let f = choose|f: int|
            0 <= f < 252 && f / 6 < frame.shadow_count as int / 6
                && #[trigger] pass.face_light_gen@[f] != frame.per_caster_dirty_gen@[f / 6];
        let slot = f / 6;
        let gens = pass.face_light_gen@;
        let desired = frame.per_caster_dirty_gen@[slot];
        let cursor = pass.caster_rr_cursor@[slot] as int;
        rounds_visit_each_face_once(slot, cursor, 0, f);
        let step = step_of(f, cursor);
        stale_steps_grow(gens, desired, slot, cursor, step, step);
        stale_steps_grow(gens, desired, slot, cursor, step + 1, 6);
        caster_has_picks(pass, frame, slot);
        let g = choose|g: int| 0 <= g < FACE_SLOTS && g / 6 == slot && #[trigger] pass.picked(frame, g);
        assert(pass.picked(frame, g));
    }
}

/// Where no face is picked, generations and cursors stay.
proof fn no_picks_keep_all(post: &ShadowPass, pre: &ShadowPass, frame: ShadowFrame)
    requires
        post.faces_picked(pre, frame),
        !pre.any_picked(frame),
    ensures
        post.faces_kept(pre),
{
    assert forall|c: int| 0 <= c < CASTER_SLOTS implies #[trigger] post.caster_rr_cursor@[c]
        == pre.caster_rr_cursor@[c] by {
        if c < casters_in_use(frame.shadow_count) {
            caster_has_picks(pre, frame, c);
        }
    }
    assert forall|f: int| 0 <= f < FACE_SLOTS implies #[trigger] post.face_light_gen@[f]
        == pre.face_light_gen@[f] by {
        assert(!pre.picked(frame, f));
    }
    assert(post.face_light_gen@ =~= pre.face_light_gen@);
    assert(post.caster_rr_cursor@ =~= pre.caster_rr_cursor@);
}

/// A run with a scene counts exactly the picked faces as rendered, also where there are
/// none.
proof fn runs_with_a_scene_pick(post: &ShadowPass, pre: &ShadowPass, frame: ShadowFrame)
    requires
        post.executed(pre, frame),
        frame.has_main_scene,
        frame.shadow_count > 0,
    ensures
        post.faces_picked(pre, frame),
{
    if pre.quiet(frame) {
        assert forall|f: int| 0 <= f < FACE_SLOTS implies !#[trigger] pre.picked(frame, f) by {}
        assert forall|c: int| 0 <= c < casters_in_use(frame.shadow_count) implies
            #[trigger] pre.picked_count(frame, c) <= 0 by {
            caster_has_picks(pre, frame, c);
        }
    }
}

/// If any of the first `n` steps meets a stale face, one meets the first.
proof fn first_stale_step(gens: Seq<u64>, desired: u64, slot: int, cursor: int, n: int) -> (step: int)
    requires
        stale_steps(gens, desired, slot, cursor, n) > 0,
    ensures
        0 <= step < n,
        gens[face_at(slot, cursor, step)] != desired,
        stale_steps(gens, desired, slot, cursor, step) == 0,
    decreases n,
{
    stale_steps_grow(gens, desired, slot, cursor, n - 1, n - 1);
    if stale_steps(gens, desired, slot, cursor, n - 1) > 0 {
        first_stale_step(gens, desired, slot, cursor, n - 1)
    } else {
        n - 1
    }
}

/// The words of the clear commands: vertex count, instance count, first vertex, first
/// instance.
pub open spec fn clear_command_words() -> Seq<u32> {
    Seq::new(
        4 * FACE_SLOTS as nat,
        |i: int|
            if i % 4 == 0 {
                3u32
            } else if i % 4 == 1 {
                1u32
            } else {
                0u32
            },
    )
}

/// Light movement costs at most one face per caster and frame.
pub proof fn one_face_per_caster_and_frame(
    pass: &ShadowPass,
    frame: ShadowFrame,
    face: int,
    other: int,
)
    requires
        pass.picked(frame, face),
        pass.picked(frame, other),
        face / (CASTER_FACES as int) == other / (CASTER_FACES as int),
    ensures
        face == other,
{
    let slot = face / 6;
    let gens = pass.face_light_gen@;
    let desired = frame.per_caster_dirty_gen@[slot];
    let cursor = pass.caster_rr_cursor@[slot] as int;
    rounds_visit_each_face_once(slot, cursor, 0, face);
    rounds_visit_each_face_once(slot, cursor, 0, other);
    let (a, b) = (step_of(face, cursor), step_of(other, cursor));
    stale_steps_grow(gens, desired, slot, cursor, a, a);
    stale_steps_grow(gens, desired, slot, cursor, b, b);
    if a < b {
        stale_steps_grow(gens, desired, slot, cursor, a + 1, b);
    } else if b < a {
        stale_steps_grow(gens, desired, slot, cursor, b + 1, a);
    }
}

/// A full round meets every stale face of the caster, wherever it starts.
proof fn a_round_meets_all(gens: Seq<u64>, desired: u64, slot: int, cursor: int)
    requires
        0 <= slot,
        0 <= cursor,
    ensures
        stale_steps(gens, desired, slot, cursor, CASTER_FACES as int) == stale_count(
            gens,
            desired,
            slot,
        ),
{
    reveal_with_fuel(stale_steps, 7);
    reveal(stale_count);
    let c = cursor % 6;
    assert(c == 0 || c == 1 || c == 2 || c == 3 || c == 4 || c == 5);
}

/// A run with a scene lowers the number of stale faces of a caster in use by one, until
/// none is left.
pub proof fn each_frame_freshens_a_face(
    post: &ShadowPass,
    pre: &ShadowPass,
    frame: ShadowFrame,
    slot: int,
)
    requires
        post.executed(pre, frame),
        frame.has_main_scene,
        0 <= slot < casters_in_use(frame.shadow_count),
    ensures
        ({
            let desired = frame.per_caster_dirty_gen@[slot];
            let before = stale_count(pre.face_light_gen@, desired, slot);
            stale_count(post.face_light_gen@, desired, slot) == (if before > 0 {
                before - 1
            } else {
                0
            })
        }),
{
    let gens = pre.face_light_gen@;
    let desired = frame.per_caster_dirty_gen@[slot];
    let cursor = pre.caster_rr_cursor@[slot] as int;
    runs_with_a_scene_pick(post, pre, frame);
    a_round_meets_all(gens, desired, slot, cursor);
    caster_has_picks(pre, frame, slot);
    reveal(stale_count);
    let base = slot * 6;
    let after = post.face_light_gen@;
    if stale_count(gens, desired, slot) > 0 {
        let picked = choose|f: int|
            0 <= f < FACE_SLOTS && f / 6 == slot && #[trigger] pre.picked(frame, f);
        assert forall|f: int| base <= f < base + 6 implies #[trigger] after[f] == (if f == picked {
            desired
        } else {
            gens[f]
        }) by {
            if pre.picked(frame, f) {
                one_face_per_caster_and_frame(pre, frame, f, picked);
            }
        }
        let k = picked - base;
        assert(k == 0 || k == 1 || k == 2 || k == 3 || k == 4 || k == 5);
        assert(gens[picked] != desired);
    } else {
        assert forall|f: int| base <= f < base + 6 implies #[trigger] after[f] == gens[f] by {
            assert(!pre.picked(frame, f));
        }
    }
}

/// `states` are the states of the pass before and after the runs of `frames`.
pub open spec fn runs(states: Seq<ShadowPass>, frames: Seq<ShadowFrame>) -> bool {
    &&& states.len() == frames.len() + 1
    &&& forall|i: int|
        0 <= i < frames.len() ==> states[i + 1].executed(&states[i], #[trigger] frames[i])
}

/// Shadows converge: once a light has settled, the stale faces of its caster are
/// rendered one per frame with a scene, so that after six such frames none is left.
pub proof fn settled_light_converges(
    states: Seq<ShadowPass>,
    frames: Seq<ShadowFrame>,
    slot: int,
    desired: u64,
)
    requires
        runs(states, frames),
        0 <= slot,
        forall|i: int|
            0 <= i < frames.len() ==> {
                &&& slot < casters_in_use((#[trigger] frames[i]).shadow_count)
                &&& frames[i].has_main_scene
                &&& frames[i].per_caster_dirty_gen@[slot] == desired
            },
    ensures
        ({
            let before = stale_count(states[0].face_light_gen@, desired, slot);
            &&& 0 <= before <= CASTER_FACES
            &&& stale_count(states.last().face_light_gen@, desired, slot) == (if before
                > frames.len() {
                before - frames.len()
            } else {
                0
            })
        }),
    decreases frames.len(),
{
    reveal(stale_count);
    if frames.len() > 0 {
        let n = frames.len() as int;
        let (earlier, seen) = (states.drop_last(), frames.drop_last());
        assert forall|i: int| 0 <= i < seen.len() implies earlier[i + 1].executed(
            &earlier[i],
            #[trigger] seen[i],
        ) by {
            assert(states[i + 1].executed(&states[i], frames[i]));
        }
        assert forall|i: int| 0 <= i < seen.len() implies {
            &&& slot < casters_in_use((#[trigger] seen[i]).shadow_count)
            &&& seen[i].has_main_scene
            &&& seen[i].per_caster_dirty_gen@[slot] == desired
        } by {
            assert(seen[i] == frames[i]);
        }
        settled_light_converges(earlier, seen, slot, desired);
        assert(states[(n - 1) + 1].executed(&states[n - 1], frames[n - 1]));
        assert(slot < casters_in_use(frames[n - 1].shadow_count));
        each_frame_freshens_a_face(&states[n], &states[n - 1], frames[n - 1], slot);
    }
}

/// Under continuous motion every face has its turn: while there is a scene and all faces
/// of a caster are stale in every frame, the frames render the faces one after the other, beginning at
/// the caster's cursor.
pub proof fn moving_light_cycles_its_faces(
    states: Seq<ShadowPass>,
    frames: Seq<ShadowFrame>,
    slot: int,
    i: int,
)
    requires
        runs(states, frames),
        0 <= slot,
        0 <= i < frames.len(),
        forall|j: int|
            0 <= j < frames.len() ==> {
                &&& slot < casters_in_use((#[trigger] frames[j]).shadow_count)
                &&& frames[j].has_main_scene
                &&& stale_count(
                    states[j].face_light_gen@,
                    frames[j].per_caster_dirty_gen@[slot],
                    slot,
                ) == CASTER_FACES
            },
    ensures
        states[i].picked(frames[i], face_at(slot, states[0].caster_rr_cursor@[slot] as int, i)),
        states[i].caster_rr_cursor@[slot] as int % (CASTER_FACES as int) == (
        states[0].caster_rr_cursor@[slot] + i) % (CASTER_FACES as int),
    decreases i,
{
    let start = states[0].caster_rr_cursor@[slot] as int;
    let cursor = states[i].caster_rr_cursor@[slot] as int;
    let frame = frames[i];
    if i > 0 {
        let earlier = frames[i - 1];
        moving_light_cycles_its_faces(states, frames, slot, i - 1);
        all_stale_picks_the_cursor(&states[i], &states[i - 1], earlier, slot);
        cursor_moves_on(start, i, states[i - 1].caster_rr_cursor@[slot] as int, cursor);
    }
    first_of_all_stale(&states[i], frame, slot);
    assert(face_at(slot, start, i) == face_at(slot, cursor, 0));
}

/// The remainder of the next cursor.
proof fn cursor_moves_on(start: int, i: int, cursor: int, next: int)
    requires
        cursor % 6 == (start + (i - 1)) % 6,
        next == (cursor + 1) % 6,
    ensures
        next % 6 == (start + i) % 6,
{
}

/// A caster all of whose faces are stale picks the one at its cursor.
proof fn first_of_all_stale(pass: &ShadowPass, frame: ShadowFrame, slot: int)
    requires
        0 <= slot < casters_in_use(frame.shadow_count),
        stale_count(pass.face_light_gen@, frame.per_caster_dirty_gen@[slot], slot) == CASTER_FACES,
    ensures
        pass.picked(frame, face_at(slot, pass.caster_rr_cursor@[slot] as int, 0)),
        pass.picked_count(frame, slot) == 1,
{
    let gens = pass.face_light_gen@;
    let desired = frame.per_caster_dirty_gen@[slot];
    let cursor = pass.caster_rr_cursor@[slot] as int;
    let face = face_at(slot, cursor, 0);
    rounds_visit_each_face_once(slot, cursor, 0, face);
    a_round_meets_all(gens, desired, slot, cursor);
    let k = face - slot * 6;
    assert(k == 0 || k == 1 || k == 2 || k == 3 || k == 4 || k == 5);
    assert(gens[face] != desired) by {
        reveal(stale_count);
    }
}

/// Its cursor then moves on to the next face.
proof fn all_stale_picks_the_cursor(
    post: &ShadowPass,
    pre: &ShadowPass,
    frame: ShadowFrame,
    slot: int,
)
    requires
        post.executed(pre, frame),
        frame.has_main_scene,
        0 <= slot < casters_in_use(frame.shadow_count),
        stale_count(pre.face_light_gen@, frame.per_caster_dirty_gen@[slot], slot) == CASTER_FACES,
    ensures
        post.caster_rr_cursor@[slot] as int == (pre.caster_rr_cursor@[slot] + 1) % 6,
{
    first_of_all_stale(pre, frame, slot);
    runs_with_a_scene_pick(post, pre, frame);
}

/// The run plans the layer of the face because its light moved: the face is cleared and
/// drawn anew.
pub open spec fn light_rendered(pass: &ShadowPass, frame: ShadowFrame, face: int) -> bool {
    let work = pass.dynamic_work(frame, faces_in_use(frame.shadow_count));
    &&& !pass.quiet(frame)
    &&& frame.has_main_scene
    &&& exists|k: int|
        0 <= k < work.len() && (#[trigger] work[k]).face == face && work[k].work is LightDirty
}

/// The work on the static atlas below face `n` lists exactly the faces that are due.
proof fn static_work_lists_the_faces(pass: &ShadowPass, frame: ShadowFrame, n: int)
    requires
        n <= FACE_SLOTS,
    ensures
        forall|k: int|
            0 <= k < pass.static_work(frame, n).len() ==> {
                let item = #[trigger] pass.static_work(frame, n)[k];
                &&& 0 <= item.face < n
                &&& pass.static_due(frame, item.face as int)
                &&& item.dyn_offset == item.face * FACE_BUF_STRIDE
                &&& item.draws == frame.static_draw_count
            },
        forall|k: int, l: int|
            0 <= k < l < pass.static_work(frame, n).len() ==> (#[trigger] pass.static_work(
                frame,
                n,
            )[k]).face < (#[trigger] pass.static_work(frame, n)[l]).face,
        forall|f: int|
            0 <= f < n && #[trigger] pass.static_due(frame, f) ==> exists|k: int|
                0 <= k < pass.static_work(frame, n).len() && (#[trigger] pass.static_work(
                    frame,
                    n,
                )[k]).face == f,
        pass.needs_static(frame) && n >= 0 ==> {
            &&& pass.static_work(frame, n).len() == n
            &&& forall|k: int|
                0 <= k < n ==> (#[trigger] pass.static_work(frame, n)[k]).face == k
        },
    decreases n,
{
    if n > 0 {
        static_work_lists_the_faces(pass, frame, n - 1);
        let (shorter, all) = (pass.static_work(frame, n - 1), pass.static_work(frame, n));
        assert forall|k: int| 0 <= k < all.len() implies {
            let item = #[trigger] all[k];
            &&& 0 <= item.face < n
            &&& pass.static_due(frame, item.face as int)
            &&& item.dyn_offset == item.face * FACE_BUF_STRIDE
            &&& item.draws == frame.static_draw_count
        } by {
            if k < shorter.len() {
                assert(all[k] == shorter[k]);
            }
        }
        assert forall|k: int, l: int| 0 <= k < l < all.len() implies (#[trigger] all[k]).face < (
        #[trigger] all[l]).face by {
            assert(all[k] == shorter[k]);
            if l < shorter.len() {
                assert(all[l] == shorter[l]);
            }
        }
        assert forall|f: int| 0 <= f < n && #[trigger] pass.static_due(frame, f) implies exists|k: int|
            0 <= k < all.len() && (#[trigger] all[k]).face == f by {
            if f == n - 1 {
                assert(all[all.len() - 1].face == f);
            } else {
                let k = choose|k: int| 0 <= k < shorter.len() && (#[trigger] shorter[k]).face == f;
                assert(all[k].face == f);
            }
        }
    }
}

/// The work on the static atlas, by its fields.
proof fn static_layers_by_field(pass: &ShadowPass, frame: ShadowFrame, statics: Seq<StaticFace>)
    requires
        statics == pass.static_work(frame, faces_in_use(frame.shadow_count)),
    ensures
        forall|k: int|
            0 <= k < statics.len() ==> {
                let item = #[trigger] statics[k];
                &&& item.face < 256
                &&& item.face < frame.shadow_count
                &&& item.dyn_offset == item.face * 256
                &&& item.draws == frame.static_draw_count
                &&& pass.needs_static(frame) || frame.static_draw_count > 0 && pass.picked(
                    frame,
                    item.face as int,
                )
            },
        pass.needs_static(frame) ==> {
            &&& frame.shadow_count <= 256 ==> statics.len() == frame.shadow_count
            &&& frame.shadow_count > 256 ==> statics.len() == 256
            &&& forall|k: int| 0 <= k < statics.len() ==> (#[trigger] statics[k]).face == k
        },
        forall|f: int|
            0 <= f < 256 && frame.static_draw_count > 0 && #[trigger] pass.picked(frame, f)
                ==> exists|k: int| 0 <= k < statics.len() && (#[trigger] statics[k]).face == f,
        forall|k: int, l: int|
            0 <= k < l < statics.len() ==> (#[trigger] statics[k]).face < (
            #[trigger] statics[l]).face,
{
    static_work_lists_the_faces(pass, frame, faces_in_use(frame.shadow_count));
    assert forall|f: int|
        0 <= f < 256 && frame.static_draw_count > 0 && #[trigger] pass.picked(
            frame,
            f,
        ) implies exists|k: int| 0 <= k < statics.len() && (#[trigger] statics[k]).face == f by {
        assert(pass.static_due(frame, f));
    }
}

/// The work on the dynamic atlas, by its fields.
proof fn dynamic_layers_by_field(pass: &ShadowPass, frame: ShadowFrame, dynamics: Seq<DynamicFace>)
    requires
        dynamics == pass.dynamic_work(frame, faces_in_use(frame.shadow_count)),
    ensures
        forall|k: int|
            0 <= k < dynamics.len() ==> {
                let item = #[trigger] dynamics[k];
                &&& item.face < 256
                &&& item.face < frame.shadow_count
                &&& item.dyn_offset == item.face * 256
                &&& item.draws == frame.movable_draw_count
                &&& item.work is LightDirty <==> pass.picked(frame, item.face as int)
                &&& item.work !is LightDirty ==> pass.last_movable_objects_gen
                    != frame.movable_objects_generation
                &&& item.work is ObjectDirty ==> pass.supports_multi_draw_count
                    && item.work->clear_offset == item.face * 16 && item.work->count_offset
                    == item.face * 4
                &&& item.work is ObjectDirtyFallback ==> !pass.supports_multi_draw_count
            },
        pass.last_movable_objects_gen != frame.movable_objects_generation ==> {
            &&& frame.shadow_count <= 256 ==> dynamics.len() == frame.shadow_count
            &&& frame.shadow_count > 256 ==> dynamics.len() == 256
            &&& forall|k: int| 0 <= k < dynamics.len() ==> (#[trigger] dynamics[k]).face == k
        },
        forall|f: int|
            0 <= f < 256 && #[trigger] pass.picked(frame, f) ==> exists|k: int|
                0 <= k < dynamics.len() && (#[trigger] dynamics[k]).face == f,
        forall|k: int, l: int|
            0 <= k < l < dynamics.len() ==> (#[trigger] dynamics[k]).face < (
            #[trigger] dynamics[l]).face,
{
    dynamic_work_lists_the_faces(pass, frame, faces_in_use(frame.shadow_count));
    assert forall|f: int| 0 <= f < 256 && #[trigger] pass.picked(frame, f) implies exists|k: int|
        0 <= k < dynamics.len() && (#[trigger] dynamics[k]).face == f by {
        assert(pass.dynamic_mode(frame, f) is Some);
    }
}

/// The work below face `n` lists exactly the faces that are rendered, with their mode.
#[verifier::rlimit(40)]
proof fn dynamic_work_lists_the_faces(pass: &ShadowPass, frame: ShadowFrame, n: int)
    requires
        n <= FACE_SLOTS,
    ensures
        forall|k: int|
            0 <= k < pass.dynamic_work(frame, n).len() ==> {
                let item = #[trigger] pass.dynamic_work(frame, n)[k];
                &&& 0 <= item.face < n
                &&& pass.dynamic_mode(frame, item.face as int) == Some(item.work)
                &&& item.dyn_offset == item.face * FACE_BUF_STRIDE
                &&& item.draws == frame.movable_draw_count
            },
        forall|k: int, l: int|
            0 <= k < l < pass.dynamic_work(frame, n).len() ==> (#[trigger] pass.dynamic_work(
                frame,
                n,
            )[k]).face < (#[trigger] pass.dynamic_work(frame, n)[l]).face,
        forall|f: int|
            0 <= f < n && (#[trigger] pass.dynamic_mode(frame, f)) is Some ==> exists|k: int|
                0 <= k < pass.dynamic_work(frame, n).len() && (#[trigger] pass.dynamic_work(
                    frame,
                    n,
                )[k]).face == f,
        pass.objects_moved(frame) && n >= 0 ==> {
            &&& pass.dynamic_work(frame, n).len() == n
            &&& forall|k: int|
                0 <= k < n ==> (#[trigger] pass.dynamic_work(frame, n)[k]).face == k
        },
    decreases n,
{
    if n > 0 {
        dynamic_work_lists_the_faces(pass, frame, n - 1);
        let (shorter, all) = (pass.dynamic_work(frame, n - 1), pass.dynamic_work(frame, n));
        assert forall|k: int| 0 <= k < all.len() implies {
            let item = #[trigger] all[k];
            &&& 0 <= item.face < n
            &&& pass.dynamic_mode(frame, item.face as int) == Some(item.work)
            &&& item.dyn_offset == item.face * FACE_BUF_STRIDE
            &&& item.draws == frame.movable_draw_count
        } by {
            if k < shorter.len() {
                assert(all[k] == shorter[k]);
            }
        }
        assert forall|k: int, l: int| 0 <= k < l < all.len() implies (#[trigger] all[k]).face < (
        #[trigger] all[l]).face by {
            assert(all[k] == shorter[k]);
            if l < shorter.len() {
                assert(all[l] == shorter[l]);
            }
        }
        assert forall|f: int|
            0 <= f < n && (#[trigger] pass.dynamic_mode(frame, f)) is Some implies exists|k: int|
            0 <= k < all.len() && (#[trigger] all[k]).face == f by {
            if f == n - 1 {
                assert(all[all.len() - 1].face == f);
            } else {
                let k = choose|k: int| 0 <= k < shorter.len() && (#[trigger] shorter[k]).face == f;
                assert(all[k].face == f);
            }
        }
    }
}

/// The layers that a run with a scene plans because a light moved are those of the picked
/// faces.
proof fn picked_faces_are_planned(pass: &ShadowPass, frame: ShadowFrame, face: int)
    requires
        frame.has_main_scene,
        frame.shadow_count > 0,
        0 <= face < FACE_SLOTS,
    ensures
        light_rendered(pass, frame, face) == pass.picked(frame, face),
{
    let n = faces_in_use(frame.shadow_count);
    let work = pass.dynamic_work(frame, n);
    dynamic_work_lists_the_faces(pass, frame, n);
    if pass.picked(frame, face) {
        assert(pass.any_picked(frame));
        assert(face < n);
        assert(pass.dynamic_mode(frame, face) is Some);
        let k = choose|k: int| 0 <= k < work.len() && (#[trigger] work[k]).face == face;
        assert(work[k].work is LightDirty);
    }
}

/// While the generation of a caster stays, a face that was rendered at it is not picked
/// again, and one that was not picked stays stale.
proof fn faces_are_picked_once(
    states: Seq<ShadowPass>,
    frames: Seq<ShadowFrame>,
    slot: int,
    desired: u64,
    face: int,
    n: int,
)
    requires
        runs(states, frames),
        0 <= slot,
        0 <= n <= frames.len(),
        0 <= face < FACE_SLOTS,
        face / (CASTER_FACES as int) == slot,
        forall|i: int|
            0 <= i < frames.len() ==> {
                &&& slot < casters_in_use((#[trigger] frames[i]).shadow_count)
                &&& frames[i].has_main_scene
                &&& frames[i].per_caster_dirty_gen@[slot] == desired
            },
    ensures
        (states[n].face_light_gen@[face] == desired) == (states[0].face_light_gen@[face] == desired
            || exists|i: int| 0 <= i < n && states[i].picked(#[trigger] frames[i], face)),
        forall|i: int, j: int|
            0 <= i < j < n && states[i].picked(#[trigger] frames[i], face) ==> !states[j].picked(
                #[trigger] frames[j],
                face,
            ),
        states[0].face_light_gen@[face] == desired ==> forall|i: int|
            0 <= i < n ==> !states[i].picked(#[trigger] frames[i], face),
    decreases n,
{
    if n > 0 {
        let m = n - 1;
        faces_are_picked_once(states, frames, slot, desired, face, m);
        assert(states[m + 1].executed(&states[m], frames[m]));
        assert(slot < casters_in_use(frames[m].shadow_count));
        runs_with_a_scene_pick(&states[n], &states[m], frames[m]);
        let now = states[n].face_light_gen@[face];
        if states[m].picked(frames[m], face) {
            assert(states[m].face_light_gen@[face] != desired);
            assert(now == desired);
        }
        assert forall|i: int, j: int|
            0 <= i < j < n && states[i].picked(
                #[trigger] frames[i],
                face,
            ) implies !states[j].picked(#[trigger] frames[j], face) by {
            if j == m {
                assert(states[m].face_light_gen@[face] == desired);
            }
        }
        assert forall|i: int|
            states[0].face_light_gen@[face] == desired && 0 <= i < n implies !states[i].picked(
            #[trigger] frames[i],
            face,
        ) by {
            if i == m {
                assert(states[m].face_light_gen@[face] == desired);
            }
        }
    }
}

/// A settled light is rendered face by face: over six frames with a scene in which the
/// generation of a caster stays, each of its faces that is stale at the start is planned
/// for the light's sake in exactly one frame, the one returned, and no other face is.
pub proof fn settled_light_renders_stale_faces_once(
    states: Seq<ShadowPass>,
    frames: Seq<ShadowFrame>,
    slot: int,
    desired: u64,
    face: int,
) -> (frame: int)
    requires
        runs(states, frames),
        frames.len() == CASTER_FACES,
        0 <= slot,
        0 <= face < FACE_SLOTS,
        face / (CASTER_FACES as int) == slot,
        forall|i: int|
            0 <= i < frames.len() ==> {
                &&& slot < casters_in_use((#[trigger] frames[i]).shadow_count)
                &&& frames[i].has_main_scene
                &&& frames[i].per_caster_dirty_gen@[slot] == desired
            },
    ensures
        states[0].face_light_gen@[face] != desired ==> {
            &&& 0 <= frame < frames.len()
            &&& forall|i: int|
                0 <= i < frames.len() ==> light_rendered(&states[i], #[trigger] frames[i], face) == (
                i == frame)
        },
        states[0].face_light_gen@[face] == desired ==> forall|i: int|
            0 <= i < frames.len() ==> !light_rendered(&states[i], #[trigger] frames[i], face),
{
    settled_light_converges(states, frames, slot, desired);
    faces_are_picked_once(states, frames, slot, desired, face, 6);
    assert forall|i: int| 0 <= i < frames.len() implies light_rendered(
        &states[i],
        #[trigger] frames[i],
        face,
    ) == states[i].picked(frames[i], face) by {
        assert(slot < casters_in_use(frames[i].shadow_count));
        picked_faces_are_planned(&states[i], frames[i], face);
    }
    let gens = states[6].face_light_gen@;
    assert(states.last() == states[6]);
    let k = face - slot * 6;
    assert(k == 0 || k == 1 || k == 2 || k == 3 || k == 4 || k == 5);
    assert(gens[slot * 6 + k] == desired) by {
        reveal(stale_count);
    }
    if states[0].face_light_gen@[face] != desired {
        let frame = choose|i: int| 0 <= i < 6 && states[i].picked(#[trigger] frames[i], face);
        assert forall|i: int| 0 <= i < frames.len() implies light_rendered(
            &states[i],
            #[trigger] frames[i],
            face,
        ) == (i == frame) by {
            if i < frame {
                assert(states[i].picked(frames[i], face) ==> !states[frame].picked(
                    frames[frame],
                    face,
                ));
            } else if frame < i {
                assert(states[frame].picked(frames[frame], face) ==> !states[i].picked(
                    frames[i],
                    face,
                ));
            }
        }
        frame
    } else {
        0
    }
}

/// A caster with a stale face moves its cursor on by one in a run with a scene, and picks
/// the face at its cursor if that one is stale.
proof fn stale_face_moves_the_cursor(
    post: &ShadowPass,
    pre: &ShadowPass,
    frame: ShadowFrame,
    slot: int,
    face: int,
)
    requires
        post.executed(pre, frame),
        frame.has_main_scene,
        0 <= slot < casters_in_use(frame.shadow_count),
        face / (CASTER_FACES as int) == slot,
        pre.face_light_gen@[face] != frame.per_caster_dirty_gen@[slot],
    ensures
        post.caster_rr_cursor@[slot] as int == (pre.caster_rr_cursor@[slot] + 1) % 6,
        step_of(face, pre.caster_rr_cursor@[slot] as int) == 0 ==> pre.picked(frame, face),
{
    let gens = pre.face_light_gen@;
    let desired = frame.per_caster_dirty_gen@[slot];
    let cursor = pre.caster_rr_cursor@[slot] as int;
    let step = step_of(face, cursor);
    rounds_visit_each_face_once(slot, cursor, 0, face);
    stale_steps_grow(gens, desired, slot, cursor, step, step);
    stale_steps_grow(gens, desired, slot, cursor, step + 1, 6);
    assert(pre.picked_count(frame, slot) == 1);
    runs_with_a_scene_pick(post, pre, frame);
}

/// While a face is stale in every frame, the cursor of its caster moves on by one per
/// frame.
proof fn stale_face_cycles_the_cursor(
    states: Seq<ShadowPass>,
    frames: Seq<ShadowFrame>,
    slot: int,
    face: int,
    n: int,
)
    requires
        runs(states, frames),
        0 <= slot,
        0 <= n <= frames.len(),
        face / (CASTER_FACES as int) == slot,
        forall|j: int|
            0 <= j < n ==> {
                &&& slot < casters_in_use((#[trigger] frames[j]).shadow_count)
                &&& frames[j].has_main_scene
                &&& states[j].face_light_gen@[face] != frames[j].per_caster_dirty_gen@[slot]
            },
    ensures
        states[n].caster_rr_cursor@[slot] as int % 6 == (states[0].caster_rr_cursor@[slot] + n) % 6,
    decreases n,
{
    if n > 0 {
        let m = n - 1;
        stale_face_cycles_the_cursor(states, frames, slot, face, m);
        assert(states[m + 1].executed(&states[m], frames[m]));
        assert(slot < casters_in_use(frames[m].shadow_count));
        stale_face_moves_the_cursor(&states[n], &states[m], frames[m], slot, face);
        cursor_moves_on(
            states[0].caster_rr_cursor@[slot] as int,
            n,
            states[m].caster_rr_cursor@[slot] as int,
            states[n].caster_rr_cursor@[slot] as int,
        );
    }
}

/// No face waits longer than six frames, however its light moves: a face that is stale in
/// each of six frames with a scene is rendered in one of them, the one returned.
pub proof fn stale_face_has_its_turn(
    states: Seq<ShadowPass>,
    frames: Seq<ShadowFrame>,
    slot: int,
    face: int,
) -> (turn: int)
    requires
        runs(states, frames),
        frames.len() == CASTER_FACES,
        0 <= slot,
        face / (CASTER_FACES as int) == slot,
        forall|j: int|
            0 <= j < frames.len() ==> {
                &&& slot < casters_in_use((#[trigger] frames[j]).shadow_count)
                &&& frames[j].has_main_scene
                &&& states[j].face_light_gen@[face] != frames[j].per_caster_dirty_gen@[slot]
            },
    ensures
        0 <= turn < frames.len(),
        light_rendered(&states[turn], frames[turn], face),
        states[turn].picked(frames[turn], face),
{
    let start = states[0].caster_rr_cursor@[slot] as int;
    let turn = step_of(face, start);
    rounds_visit_each_face_once(slot, start, 0, face);
    stale_face_cycles_the_cursor(states, frames, slot, face, turn);
    assert(states[turn + 1].executed(&states[turn], frames[turn]));
    assert(slot < casters_in_use(frames[turn].shadow_count));
    let cursor = states[turn].caster_rr_cursor@[slot] as int;
    assert(step_of(face, cursor) == 0);
    stale_face_moves_the_cursor(&states[turn + 1], &states[turn], frames[turn], slot, face);
    picked_faces_are_planned(&states[turn], frames[turn], face);
    turn
}

/// A face that was up to date with one of the first `n` frames stays up to date with one of
/// the frames so far.
proof fn recent_faces_stay_recent(
    states: Seq<ShadowPass>,
    frames: Seq<ShadowFrame>,
    slot: int,
    face: int,
    n: int,
    m: int,
    source: int,
) -> (recent: int)
    requires
        runs(states, frames),
        0 <= slot,
        0 <= n <= m <= frames.len(),
        0 <= face < FACE_SLOTS,
        face / (CASTER_FACES as int) == slot,
        forall|j: int|
            0 <= j < frames.len() ==> {
                &&& slot < casters_in_use((#[trigger] frames[j]).shadow_count)
                &&& frames[j].has_main_scene
            },
        0 <= source < frames.len(),
        source <= n,
        states[n].face_light_gen@[face] == frames[source].per_caster_dirty_gen@[slot],
    ensures
        0 <= recent < frames.len(),
        states[m].face_light_gen@[face] == frames[recent].per_caster_dirty_gen@[slot],
    decreases m,
{
    if n == m {
        source
    } else {
        let earlier = recent_faces_stay_recent(states, frames, slot, face, n, m - 1, source);
        let k = m - 1;
        assert(states[k + 1].executed(&states[k], frames[k]));
        assert(slot < casters_in_use(frames[k].shadow_count));
        runs_with_a_scene_pick(&states[m], &states[k], frames[k]);
        let now = states[m].face_light_gen@[face];
        if states[k].picked(frames[k], face) {
            k
        } else {
            earlier
        }
    }
}

/// Shadows lag a light by at most six frames, however it moves: after six frames with a
/// scene, every face of a caster in use shows the light as it was in one of them, the one
/// returned.
pub proof fn faces_lag_at_most_six_frames(
    states: Seq<ShadowPass>,
    frames: Seq<ShadowFrame>,
    slot: int,
    face: int,
) -> (recent: int)
    requires
        runs(states, frames),
        frames.len() == CASTER_FACES,
        0 <= slot,
        face / (CASTER_FACES as int) == slot,
        forall|j: int|
            0 <= j < frames.len() ==> {
                &&& slot < casters_in_use((#[trigger] frames[j]).shadow_count)
                &&& frames[j].has_main_scene
            },
    ensures
        0 <= recent < frames.len(),
        states.last().face_light_gen@[face] == frames[recent].per_caster_dirty_gen@[slot],
{
    assert(slot < casters_in_use(frames[0].shadow_count));
    assert(states.last() == states[6]);
    if exists|j: int|
        0 <= j < frames.len() && states[j].face_light_gen@[face] == (
        #[trigger] frames[j]).per_caster_dirty_gen@[slot] {
        let j = choose|j: int|
            0 <= j < frames.len() && states[j].face_light_gen@[face] == (
            #[trigger] frames[j]).per_caster_dirty_gen@[slot];
        recent_faces_stay_recent(states, frames, slot, face, j, 6, j)
    } else {
        let turn = stale_face_has_its_turn(states, frames, slot, face);
        assert(states[turn + 1].executed(&states[turn], frames[turn]));
        runs_with_a_scene_pick(&states[turn + 1], &states[turn], frames[turn]);
        let now = states[turn + 1].face_light_gen@[face];
        recent_faces_stay_recent(states, frames, slot, face, turn + 1, 6, turn)
    }
}

/// A run that fails for want of a scene loses no face: the next run picks what it would
/// have picked without it.
pub proof fn missing_scene_loses_no_face(
    post: &ShadowPass,
    pre: &ShadowPass,
    frame: ShadowFrame,
    next: ShadowFrame,
    face: int,
)
    requires
        post.executed(pre, frame),
        !frame.has_main_scene,
        frame.shadow_count > 0,
        0 <= face < FACE_SLOTS,
    ensures
        post.picked(next, face) == pre.picked(next, face),
        post.needs_static(next) == pre.needs_static(next),
        post.objects_moved(next) == pre.objects_moved(next),
{
}

/// A second run on an unchanged scene renders nothing once no face is stale, no matter
/// what the first one rendered.
pub proof fn settled_scene_is_quiet(post: &ShadowPass, pre: &ShadowPass, frame: ShadowFrame)
    requires
        post.executed(pre, frame),
        frame.has_main_scene,
        forall|slot: int|
            0 <= slot < casters_in_use(frame.shadow_count) ==> stale_count(
                pre.face_light_gen@,
                frame.per_caster_dirty_gen@[slot],
                slot,
            ) <= 1,
    ensures
        post.quiet(frame),
{
    if frame.shadow_count > 0 {
        assert forall|face: int| 0 <= face < FACE_SLOTS implies !#[trigger] post.picked(
            frame,
            face,
        ) by {
            let slot = face / 6;
            if 0 <= slot < casters_in_use(frame.shadow_count) {
                each_frame_freshens_a_face(post, pre, frame, slot);
                let k = face - slot * 6;
                assert(k == 0 || k == 1 || k == 2 || k == 3 || k == 4 || k == 5);
                let gens = post.face_light_gen@;
                let desired = frame.per_caster_dirty_gen@[slot];
                assert(stale_count(gens, desired, slot) == 0);
                assert(gens[slot * 6 + k] == desired) by {
                    reveal(stale_count);
                }
            }
        }
    }
}

/// What a run leaves behind. With a scene, the pass is up to date with the frame's topology
/// and objects; the picked faces are up to date with their light, the others are as they
/// were; and the cursor of a caster in use with a stale face moves on by one, around the six
/// faces, while the other cursors stay. Without a scene nothing changes, and without faces
/// everything is forgotten.
pub proof fn runs_bring_the_pass_up_to_date(
    post: &ShadowPass,
    pre: &ShadowPass,
    frame: ShadowFrame,
    face: int,
    slot: int,
)
    requires
        post.executed(pre, frame),
        0 <= face < 256,
        0 <= slot < 42,
    ensures
        post.supports_multi_draw_count == pre.supports_multi_draw_count,
        frame.shadow_count == 0 ==> {
            &&& post.static_atlas_cache_gen is None
            &&& post.face_light_gen@[face] == 0
            &&& post.caster_rr_cursor@[slot] == 0
            &&& post.last_rendered_shadow_count == 0
            &&& post.last_movable_objects_gen == u64::MAX
            &&& post.bg_0_key == pre.bg_0_key
        },
        frame.shadow_count > 0 && !frame.has_main_scene ==> {
            &&& post.static_atlas_cache_gen == pre.static_atlas_cache_gen
            &&& post.face_light_gen@[face] == pre.face_light_gen@[face]
            &&& post.caster_rr_cursor@[slot] == pre.caster_rr_cursor@[slot]
            &&& post.last_rendered_shadow_count == pre.last_rendered_shadow_count
            &&& post.last_movable_objects_gen == pre.last_movable_objects_gen
            &&& post.bg_0_key == pre.bg_0_key
        },
        frame.shadow_count > 0 && frame.has_main_scene ==> {
            &&& post.static_atlas_cache_gen == Some(frame.static_objects_generation)
            &&& post.last_rendered_shadow_count == frame.shadow_count
            &&& post.last_movable_objects_gen == frame.movable_objects_generation
            &&& pre.picked(frame, face) ==> post.face_light_gen@[face]
                == frame.per_caster_dirty_gen@[face / 6]
            &&& !pre.picked(frame, face) ==> post.face_light_gen@[face] == pre.face_light_gen@[face]
            &&& if slot < frame.shadow_count as int / 6 && exists|f: int|
                6 * slot <= f < 6 * slot + 6 && #[trigger] pre.face_light_gen@[f]
                    != frame.per_caster_dirty_gen@[slot] {
                post.caster_rr_cursor@[slot] == (pre.caster_rr_cursor@[slot] + 1) % 6
            } else {
                post.caster_rr_cursor@[slot] == pre.caster_rr_cursor@[slot]
            }
        },
        frame.has_main_scene && (pre.static_atlas_cache_gen != Some(frame.static_objects_generation)
            || pre.last_movable_objects_gen != frame.movable_objects_generation)
            && frame.shadow_count > 0 ==> post.bg_0_key == Some(frame.bindings),
{
    if frame.shadow_count > 0 && frame.has_main_scene {
        runs_with_a_scene_pick(post, pre, frame);
        let (gen, cursor) = (post.face_light_gen@[face], post.caster_rr_cursor@[slot]);
        if slot < frame.shadow_count as int / 6 {
            let gens = pre.face_light_gen@;
            let desired = frame.per_caster_dirty_gen@[slot];
            let start = pre.caster_rr_cursor@[slot] as int;
            if exists|f: int|
                6 * slot <= f < 6 * slot + 6 && #[trigger] pre.face_light_gen@[f] != desired {
                let f = choose|f: int|
                    6 * slot <= f < 6 * slot + 6 && #[trigger] pre.face_light_gen@[f] != desired;
                stale_face_moves_the_cursor(post, pre, frame, slot, f);
            } else {
                fresh_steps_count_nothing(gens, desired, slot, start, 6);
                assert forall|s: int| 0 <= s < 6 implies gens[#[trigger] face_at(slot, start, s)]
                    == desired by {
                    rounds_visit_each_face_once(slot, start, s, 0);
                    let g = face_at(slot, start, s);
                    assert(pre.face_light_gen@[g] == desired);
                }
                assert(pre.picked_count(frame, slot) == 0);
            }
        }
    }
}

/// Every layer is drawn with its own matrix: the entry of the face-index table that is bound
/// for a layer of either atlas holds the layer's own face, and all commands of the atlas are
/// drawn into it.
pub proof fn layers_are_drawn_with_their_own_matrix(pass: &ShadowPass, frame: ShadowFrame, k: int)
    ensures
        ({
            let statics = pass.static_work(frame, faces_in_use(frame.shadow_count));
            0 <= k < statics.len() ==> {
                &&& statics[k].dyn_offset % 256 == 0
                &&& face_table_words(0)[statics[k].dyn_offset as int / 4] == statics[k].face
                &&& statics[k].face < frame.shadow_count
                &&& statics[k].draws == frame.static_draw_count
            }
        }),
        ({
            let dynamics = pass.dynamic_work(frame, faces_in_use(frame.shadow_count));
            0 <= k < dynamics.len() ==> {
                &&& dynamics[k].dyn_offset % 256 == 0
                &&& face_table_words(0)[dynamics[k].dyn_offset as int / 4] == dynamics[k].face
                &&& dynamics[k].face < frame.shadow_count
                &&& dynamics[k].draws == frame.movable_draw_count
            }
        }),
{
    let n = faces_in_use(frame.shadow_count);
    let (statics, dynamics) = (pass.static_work(frame, n), pass.dynamic_work(frame, n));
    static_work_lists_the_faces(pass, frame, n);
    dynamic_work_lists_the_faces(pass, frame, n);
    if 0 <= k < statics.len() {
        let item = statics[k];
        table_entries_hold_their_face(0, item.face as int, 0);
    }
    if 0 <= k < dynamics.len() {
        let item = dynamics[k];
        table_entries_hold_their_face(0, item.face as int, 0);
    }
}

/// A moved light is redrawn in both atlases, and moved objects in every layer: a picked face
/// has a cleared dynamic layer, and a static one if there is anything static to draw; other
/// layers are touched only for moved objects or a new topology. GPU counters decide on a
/// layer exactly when the device has them, by the command and the counters of the layer's
/// own face.
pub proof fn layers_are_rendered_for_a_reason(pass: &ShadowPass, frame: ShadowFrame, face: int)
    requires
        0 <= face < 256,
    ensures
        pass.static_due(frame, face) <==> {
            ||| pass.static_atlas_cache_gen != Some(frame.static_objects_generation)
            ||| pass.last_rendered_shadow_count != frame.shadow_count
            ||| frame.static_draw_count > 0 && pass.picked(frame, face)
        },
        pass.picked(frame, face) ==> pass.dynamic_mode(frame, face) == Some(
            DynamicWork::LightDirty,
        ),
        !pass.picked(frame, face) && frame.movable_objects_generation
            == pass.last_movable_objects_gen ==> pass.dynamic_mode(frame, face) is None,
        !pass.picked(frame, face) && frame.movable_objects_generation
            != pass.last_movable_objects_gen ==> {
            &&& pass.dynamic_mode(frame, face) is Some
            &&& !pass.supports_multi_draw_count ==> pass.dynamic_mode(frame, face)->0
                is ObjectDirtyFallback
            &&& pass.supports_multi_draw_count ==> {
                let work = pass.dynamic_mode(frame, face)->0;
                &&& work is ObjectDirty
                &&& work->clear_offset == 16 * face
                &&& work->count_offset == 4 * face
            }
        },
{
}

/// The clear command of each face draws three vertices, once, from the first on.
pub proof fn clear_commands_draw_a_triangle(face: int)
    requires
        0 <= face < 256,
    ensures
        4 * clear_command_words().len() == 256 * 16,
        clear_command_words()[face * 16 / 4] == 3,
        clear_command_words()[face * 16 / 4 + 1] == 1,
        clear_command_words()[face * 16 / 4 + 2] == 0,
        clear_command_words()[face * 16 / 4 + 3] == 0,
{
    assert(face * 16 / 4 == 4 * face);
    assert((4 * face) % 4 == 0 && (4 * face + 1) % 4 == 1 && (4 * face + 2) % 4 == 2 && (4 * face
        + 3) % 4 == 3);
}

/// The dimensions of the texture-array pass.
pub proof fn array_dimensions_are_fixed()
    ensures
        SHADOW_RES == 1024,
        CASTER_FACES == 6,
        CASTER_SLOTS == 42,
        MAX_LIGHT_FACES_PER_FRAME == 1,
        CLEAR_STRIDE == 16,
        FACE_COUNT_STRIDE == 4,
{
}

} // verus!
