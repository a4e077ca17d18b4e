//! Per-frame state shared by the pipeline passes.

use vstd::prelude::*;

use crate::views::ViewBuilder;
use crate::{ATLAS_RES, DRAW_STRIDE, FACE_SLOTS, MAX_DRAWS_PER_VIEW, MAX_SHADOW_FACES, MAX_VIEWS};

verus! {

/// Bytes of one `GpuView`.
pub const VIEW_STRIDE: u64 = 176;

/// Bytes of one face matrix.
pub const MATRIX_STRIDE: u64 = 64;

/// Bytes of one draw counter.
pub const COUNT_STRIDE: u64 = 4;

/// State shared by the passes of one pipeline. `CullPass::prepare` refreshes the
/// per-frame fields; later passes read them.
pub struct PipelineShared {
    /// The device can draw an indirect list whose length a GPU buffer holds.
    pub supports_multi_draw_count: bool,
    /// Total views uploaded this frame: 1 (camera) + active shadow face range.
    pub view_count: u32,
    /// Shadow face slots in use this frame.
    pub face_count: u32,
    /// Per-face: belongs to a real caster face this frame.
    pub face_active: [bool; FACE_SLOTS],
    /// Per-face: must re-render (matrix changed / never rendered / movable objects
    /// moved). Set by `CullPass::prepare` (accumulating), cleared per face by
    /// `ShadowAtlasPass::execute` once the face is re-rendered.
    pub face_dirty: [bool; FACE_SLOTS],
    /// Per-face: rendered at least once with its current activation. Cleared when a
    /// face goes inactive so re-activation forces a re-render.
    pub face_rendered_once: [bool; FACE_SLOTS],
    /// Draw count captured at prepare time.
    pub draw_count: u32,
    /// False until the atlas has been cleared once.
    pub atlas_initialized: bool,
}

/// Sizes in bytes of the GPU buffers that the passes share, and the atlas resolution.
pub struct SharedLayout {
    pub views_size: u64,
    pub face_mats_size: u64,
    pub culled_indirect_size: u64,
    pub view_counts_size: u64,
    pub atlas_res: u32,
}

/// Byte offset of a view's draw list.
pub open spec fn indirect_start(view: int) -> int {
    view * MAX_DRAWS_PER_VIEW * DRAW_STRIDE
}

/// Byte offset of a view's draw counter.
pub open spec fn count_start(view: int) -> int {
    view * COUNT_STRIDE
}

impl PipelineShared {
    /// The state before the first frame.
    pub fn new(supports_multi_draw_count: bool) -> (shared: Self)
        ensures
            shared.supports_multi_draw_count == supports_multi_draw_count,
            shared.view_count == 1,
            shared.face_count == 0,
            shared.draw_count == 0,
            !shared.atlas_initialized,
            forall|f: int| 0 <= f < FACE_SLOTS ==> !#[trigger] shared.face_active@[f],
            forall|f: int| 0 <= f < FACE_SLOTS ==> !#[trigger] shared.face_dirty@[f],
            forall|f: int| 0 <= f < FACE_SLOTS ==> !#[trigger] shared.face_rendered_once@[f],
    {
        PipelineShared {
            supports_multi_draw_count,
            view_count: 1,
            face_count: 0,
            face_active: [false; 256],
            face_dirty: [false; 256],
            face_rendered_once: [false; 256],
            draw_count: 0,
            atlas_initialized: false,
        }
    }

    /// What the shared GPU resources must hold: one view per camera and face slot, one
    /// matrix per face slot, one full draw list and one counter per view.
    pub fn layout() -> (layout: SharedLayout)
        ensures
            layout.views_size == MAX_VIEWS * VIEW_STRIDE,
            layout.face_mats_size == MAX_SHADOW_FACES * MATRIX_STRIDE,
            layout.culled_indirect_size == MAX_VIEWS * MAX_DRAWS_PER_VIEW * DRAW_STRIDE,
            layout.view_counts_size == MAX_VIEWS * COUNT_STRIDE,
            layout.atlas_res == ATLAS_RES,
            layout.views_size == 257 * 176,
            layout.face_mats_size == 256 * 64,
            layout.culled_indirect_size == 257 * 81920,
            layout.view_counts_size == 257 * 4,
            layout.atlas_res == 8192,
    {
        SharedLayout {
            views_size: MAX_VIEWS as u64 * VIEW_STRIDE,
            face_mats_size: MAX_SHADOW_FACES as u64 * MATRIX_STRIDE,
            culled_indirect_size: MAX_VIEWS as u64 * MAX_DRAWS_PER_VIEW as u64 * DRAW_STRIDE,
            view_counts_size: MAX_VIEWS as u64 * COUNT_STRIDE,
            atlas_res: ATLAS_RES,
        }
    }

    /// Byte offset of `view`'s slice in the culled draw lists.
    pub fn indirect_offset(view: u32) -> (offset: u64)
        ensures
            offset == indirect_start(view as int),
            offset == view * 81920,
    {
        assert(view * MAX_DRAWS_PER_VIEW <= 0xffff_ffff * 4096) by (nonlinear_arith)
            requires
                MAX_DRAWS_PER_VIEW == 4096,
        ;
        let draws: u64 = view as u64 * MAX_DRAWS_PER_VIEW as u64;
        draws * DRAW_STRIDE
    }

    /// Byte offset of `view`'s entry in the view counts.
    pub fn count_offset(view: u32) -> (offset: u64)
        ensures
            offset == count_start(view as int),
            offset == view * 4,
    {
        view as u64 * COUNT_STRIDE
    }

    /// What one frame's view set makes of the render state of a slot in use. Work
    /// accumulates on an active face until it is rendered; an inactive face drops its
    /// pending work and starts over when it is activated again.
    pub open spec fn face_folded(
        &self,
        pre: &PipelineShared,
        builder: &ViewBuilder,
        objects_moved: bool,
        face: int,
    ) -> bool {
        &&& self.face_active@[face] == builder.face_active@[face]
        &&& self.face_dirty@[face] == (builder.face_active@[face] && (pre.face_dirty@[face]
            || builder.face_changed@[face] || objects_moved || !pre.face_rendered_once@[face]))
        &&& self.face_rendered_once@[face] == (builder.face_active@[face]
            && pre.face_rendered_once@[face])
    }

    /// A slot that is not in use is inactive: it has no pending work and starts over when
    /// it is activated again.
    pub open spec fn face_cleared(&self, face: int) -> bool {
        &&& !self.face_active@[face]
        &&& !self.face_dirty@[face]
        &&& !self.face_rendered_once@[face]
    }

    /// The render state of slot `face` is what it was in `pre`.
    spec fn face_kept(&self, pre: &PipelineShared, face: int) -> bool {
        &&& self.face_active@[face] == pre.face_active@[face]
        &&& self.face_dirty@[face] == pre.face_dirty@[face]
        &&& self.face_rendered_once@[face] == pre.face_rendered_once@[face]
    }

    /// What one frame's view set makes of the render state: the first `face_count`
    /// slots follow the builder, the others are inactive.
    pub open spec fn faces_folded(
        &self,
        pre: &PipelineShared,
        builder: &ViewBuilder,
        objects_moved: bool,
        face_count: int,
    ) -> bool {
        forall|f: int|
            #![trigger self.face_dirty@[f]]
            #![trigger self.face_active@[f]]
            #![trigger self.face_rendered_once@[f]]
            0 <= f < FACE_SLOTS ==> if f < face_count {
                self.face_folded(pre, builder, objects_moved, f)
            } else {
                self.face_cleared(f)
            }
    }

    /// Folds the builder's reports on the first `face_count` faces into the render
    /// state and deactivates the others.
    pub fn fold_faces(&mut self, builder: &ViewBuilder, objects_moved: bool, face_count: u32)
        requires
            face_count <= MAX_SHADOW_FACES,
        ensures
            final(self).faces_folded(old(self), builder, objects_moved, face_count as int),
            final(self).supports_multi_draw_count == old(self).supports_multi_draw_count,
            final(self).view_count == old(self).view_count,
            final(self).face_count == old(self).face_count,
            final(self).draw_count == old(self).draw_count,
            final(self).atlas_initialized == old(self).atlas_initialized,
    {
        let count: usize = face_count as usize;
        let mut f: usize = 0;
        while f < FACE_SLOTS
            invariant
                f <= FACE_SLOTS,
                count == face_count,
                self.supports_multi_draw_count == old(self).supports_multi_draw_count,
                self.view_count == old(self).view_count,
                self.face_count == old(self).face_count,
                self.draw_count == old(self).draw_count,
                self.atlas_initialized == old(self).atlas_initialized,
                forall|k: int|
                    0 <= k < f && k < count ==> #[trigger] self.face_folded(
                        old(self),
                        builder,
                        objects_moved,
                        k,
                    ),
                forall|k: int| count <= k < f ==> #[trigger] self.face_cleared(k),
                forall|k: int| f <= k < FACE_SLOTS ==> #[trigger] self.face_kept(old(self), k),
            decreases FACE_SLOTS - f,
        {
            let ghost before = *self;
            assert(self.face_kept(old(self), f as int));
            let active: bool = f < count && builder.face_active[f];
            self.face_active[f] = active;
            if active {
                // Accumulate: the atlas pass clears the flag once the face is rendered.
                if builder.face_changed[f] || objects_moved || !self.face_rendered_once[f] {
                    self.face_dirty[f] = true;
                }
            } else {
                // Drop pending work and force a re-render on re-activation.
                self.face_rendered_once[f] = false;
                self.face_dirty[f] = false;
            }
            assert forall|k: int| 0 <= k < f + 1 && k < count implies #[trigger] self.face_folded(
                old(self),
                builder,
                objects_moved,
                k,
            ) by {
                if k < f {
                    assert(before.face_folded(old(self), builder, objects_moved, k));
                }
            }
            assert forall|k: int| count <= k < f + 1 implies #[trigger] self.face_cleared(k) by {
                if k < f {
                    assert(before.face_cleared(k));
                }
            }
            assert forall|k: int| f < k < FACE_SLOTS implies #[trigger] self.face_kept(
                old(self),
                k,
            ) by {
                assert(before.face_kept(old(self), k));
            }
            f += 1;
        }
        assert forall|k: int| 0 <= k < FACE_SLOTS implies if k < face_count {
            self.face_folded(old(self), builder, objects_moved, k)
        } else {
            self.face_cleared(k)
        } by {}
    }
}

/// The draw lists of two views never share a byte, a full list ends where the next one
/// begins, and every list and counter of a view lies inside its buffer.
pub proof fn draw_lists_are_separate(view: int, other: int, draw: int, other_draw: int)
    requires
        0 <= view < other < MAX_VIEWS,
        0 <= draw < MAX_DRAWS_PER_VIEW,
        0 <= other_draw < MAX_DRAWS_PER_VIEW,
    ensures
        indirect_start(view) + (draw + 1) * DRAW_STRIDE <= indirect_start(other) + other_draw
            * DRAW_STRIDE,
        indirect_start(view + 1) == indirect_start(view) + MAX_DRAWS_PER_VIEW * DRAW_STRIDE,
        indirect_start(other) + (other_draw + 1) * DRAW_STRIDE <= MAX_VIEWS * MAX_DRAWS_PER_VIEW
            * DRAW_STRIDE,
        count_start(view) + COUNT_STRIDE <= count_start(other),
        count_start(other) + COUNT_STRIDE <= MAX_VIEWS * COUNT_STRIDE,
{
}

/// The offsets of a view: 4096 commands of 20 bytes per draw list, and 4 bytes per counter.
pub proof fn offsets_count_full_lists(view: int)
    ensures
        indirect_start(0) == 0,
        indirect_start(view + 1) - indirect_start(view) == 4096 * 20,
        indirect_start(view) == 81920 * view,
        count_start(view) == 4 * view,
        VIEW_STRIDE == 4 * (16 + 6 * 4 + 1 + 3),
        MATRIX_STRIDE == 4 * 16,
        COUNT_STRIDE == 4,
{
}

/// How the render state of a face follows one frame. A slot in use takes its activity from
/// the builder. While it is active, it is dirty exactly when it was dirty, its matrix
/// changed, an object moved or it was never rendered with this activation, and it keeps
/// whether it was rendered. A slot that is inactive or not in use is clean and counts as
/// never rendered.
pub proof fn folding_accumulates_work(
    post: &PipelineShared,
    pre: &PipelineShared,
    builder: &ViewBuilder,
    objects_moved: bool,
    face_count: int,
    face: int,
)
    requires
        post.faces_folded(pre, builder, objects_moved, face_count),
        0 <= face < 256,
    ensures
        post.face_active@[face] <==> face < face_count && builder.face_active@[face],
        !post.face_active@[face] ==> !post.face_dirty@[face] && !post.face_rendered_once@[face],
        post.face_active@[face] ==> {
            &&& post.face_rendered_once@[face] == pre.face_rendered_once@[face]
            &&& pre.face_dirty@[face] ==> post.face_dirty@[face]
            &&& builder.face_changed@[face] ==> post.face_dirty@[face]
            &&& objects_moved ==> post.face_dirty@[face]
            &&& !pre.face_rendered_once@[face] ==> post.face_dirty@[face]
            &&& post.face_dirty@[face] ==> pre.face_dirty@[face] || builder.face_changed@[face]
                || objects_moved || !pre.face_rendered_once@[face]
        },
{
    let active = post.face_active@[face];
}

} // verus!
