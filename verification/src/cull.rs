//! Unified multi-view culling pass.
//!
//! One compute dispatch culls every draw against every view: the camera (view 0) plus
//! all shadow faces (views `1..`). `prepare` carries the per-frame CPU work: it
//! rebuilds the view set, folds the change reports into the shared render state and
//! encodes the uploads. The view set is uploaded again only when a generation counter or
//! the draw count says that it may have changed.

use vstd::prelude::*;

use crate::bytes::{native_bytes, word_bytes};
use crate::shared::{
    folding_accumulates_work, PipelineShared, COUNT_STRIDE, MATRIX_STRIDE, VIEW_STRIDE,
};
use crate::views::{
    active_slots_are_owned, face_range, transforms_cover, GpuLight, GpuView, ViewBuilder,
    ViewTransform,
};
use crate::{FACE_SLOTS, MAX_DRAWS_PER_VIEW, MAX_SHADOW_FACES, MAX_VIEWS};

verus! {

/// Threads per workgroup along the draw axis.
pub const WORKGROUP_SIZE: u32 = 64;

/// The words of a view, field after field.
pub open spec fn view_words(view: GpuView) -> Seq<u32> {
    view.view_proj@ + view.planes@[0]@ + view.planes@[1]@ + view.planes@[2]@ + view.planes@[3]@
        + view.planes@[4]@ + view.planes@[5]@ + seq![view.flags] + view._pad@
}

/// The words of a list of views, view after view.
pub open spec fn views_words(views: Seq<GpuView>) -> Seq<u32>
    decreases views.len(),
{
    if views.len() == 0 {
        Seq::empty()
    } else {
        views_words(views.drop_last()) + view_words(views.last())
    }
}

/// The words of a list of matrices, matrix after matrix.
pub open spec fn matrices_words(mats: Seq<[u32; 16]>) -> Seq<u32>
    decreases mats.len(),
{
    if mats.len() == 0 {
        Seq::empty()
    } else {
        matrices_words(mats.drop_last()) + mats.last()@
    }
}

fn push_words<const N: usize>(out: &mut Vec<u32>, words: &[u32; N])
    ensures
        final(out)@ == old(out)@ + words@,
{
    let mut i: usize = 0;
    while i < N
        invariant
            i <= N,
            out@ == old(out)@ + words@.take(i as int),
        decreases N - i,
    {
        out.push(words[i]);
        assert(words@.take(i + 1) =~= words@.take(i as int).push(words@[i as int]));
        i += 1;
    }
    assert(words@.take(N as int) =~= words@);
}

fn push_view(out: &mut Vec<u32>, view: &GpuView)
    ensures
        final(out)@ == old(out)@ + view_words(*view),
{
    push_words(out, &view.view_proj);
    push_words(out, &view.planes[0]);
    push_words(out, &view.planes[1]);
    push_words(out, &view.planes[2]);
    push_words(out, &view.planes[3]);
    push_words(out, &view.planes[4]);
    push_words(out, &view.planes[5]);
    out.push(view.flags);
    push_words(out, &view._pad);
    assert(out@ =~= old(out)@ + view_words(*view));
}

/// The first `count` views as upload bytes.
fn encode_views(views: &[GpuView], count: usize) -> (bytes: Vec<u8>)
    requires
        count <= views@.len(),
    ensures
        native_bytes(views_words(views@.take(count as int)), bytes@),
{
    let mut words: Vec<u32> = Vec::new();
    let mut i: usize = 0;
    assert(views@.take(0) =~= Seq::empty());
    while i < count
        invariant
            i <= count <= views@.len(),
            words@ == views_words(views@.take(i as int)),
        decreases count - i,
    {
        push_view(&mut words, &views[i]);
        assert(views@.take(i + 1).drop_last() =~= views@.take(i as int));
        i += 1;
    }
    word_bytes(words.as_slice())
}

/// The first `count` matrices as upload bytes.
fn encode_matrices(mats: &[[u32; 16]], count: usize) -> (bytes: Vec<u8>)
    requires
        count <= mats@.len(),
    ensures
        native_bytes(matrices_words(mats@.take(count as int)), bytes@),
{
    let mut words: Vec<u32> = Vec::new();
    let mut i: usize = 0;
    assert(mats@.take(0) =~= Seq::empty());
    while i < count
        invariant
            i <= count <= mats@.len(),
            words@ == matrices_words(mats@.take(i as int)),
        decreases count - i,
    {
        push_words(&mut words, &mats[i]);
        assert(mats@.take(i + 1).drop_last() =~= mats@.take(i as int));
        i += 1;
    }
    word_bytes(words.as_slice())
}

/// What `CullPass::prepare` reads of the scene.
pub struct CullFrame<'a> {
    pub camera: ViewTransform,
    /// The movable lights.
    pub lights: &'a [GpuLight],
    /// For each light the transforms of the shadow faces that it renders.
    pub transforms: &'a [Vec<ViewTransform>],
    /// Length of the scene's shadow matrix list.
    pub shadow_matrix_count: usize,
    /// Length of the scene's draw call list.
    pub draw_call_count: usize,
    /// Counts the changes of the camera.
    pub camera_generation: u64,
    /// Counts the changes of movable lights.
    pub movable_lights_generation: u64,
    /// Counts the changes of movable objects.
    pub movable_objects_generation: u64,
}

/// What an upload of the view set was made for.
#[derive(Clone, Copy, Debug, PartialEq, Eq, Structural)]
pub struct ViewSetKey {
    pub camera_generation: u64,
    pub movable_lights_generation: u64,
    pub movable_objects_generation: u64,
    pub draw_count: u32,
}

/// The buffers to write after `CullPass::prepare`, each from offset 0.
pub struct CullUploads {
    /// The views in use; nothing is written when all generations and the draw count are
    /// those of the previous `prepare`.
    pub views: Option<Vec<u8>>,
    /// The face matrices in use; nothing is written when no face is.
    pub face_mats: Option<Vec<u8>>,
    /// The shader parameters: draw count, view count, compact mode, list capacity.
    pub params: Vec<u8>,
    /// A zero for the draw counter of every view in use.
    pub view_counts: Vec<u8>,
    /// The scene has more draws than a list holds, and this was not reported before.
    pub warn_overflow: bool,
}

/// Identity of the scene buffers that the bind group refers to: address and size of
/// each.
#[derive(Clone, Copy, Debug, PartialEq, Eq, Structural)]
pub struct CullBindings {
    pub draw_calls_ptr: usize,
    pub draw_calls_size: u64,
    pub instances_ptr: usize,
    pub instances_size: u64,
    pub visibility_ptr: usize,
    pub visibility_size: u64,
}

/// The compute dispatch to encode.
pub struct CullDispatch {
    /// The bind group must be created anew first.
    pub rebuild_bind_group: bool,
    pub workgroups: (u32, u32, u32),
}

/// Face slots in use for a shadow matrix list of the given length.
pub open spec fn slots_in_use(shadow_matrix_count: usize) -> int {
    if shadow_matrix_count <= FACE_SLOTS {
        shadow_matrix_count as int
    } else {
        FACE_SLOTS as int
    }
}

/// Face slots in use for a shadow matrix list of the given length.
pub fn shadow_face_count(shadow_matrix_count: usize) -> (count: u32)
    ensures
        count == slots_in_use(shadow_matrix_count),
        face_range(count) == count,
        shadow_matrix_count <= 256 ==> count == shadow_matrix_count,
        shadow_matrix_count > 256 ==> count == 256,
{
    if shadow_matrix_count <= FACE_SLOTS {
        shadow_matrix_count as u32
    } else {
        MAX_SHADOW_FACES
    }
}

/// The low 32 bits of a draw call count.
pub open spec fn draw_count_of(draw_call_count: usize) -> u32 {
    (draw_call_count as int % 0x1_0000_0000) as u32
}

/// What an upload of the frame's view set is made for.
pub open spec fn view_set_key(frame: CullFrame) -> ViewSetKey {
    ViewSetKey {
        camera_generation: frame.camera_generation,
        movable_lights_generation: frame.movable_lights_generation,
        movable_objects_generation: frame.movable_objects_generation,
        draw_count: draw_count_of(frame.draw_call_count),
    }
}

/// State of the culling pass.
pub struct CullPass {
    pub builder: ViewBuilder,
    /// `movable_objects_generation` seen last prepare. Starts at `u64::MAX` so the
    /// first frame counts as "objects moved".
    pub prev_objects_gen: u64,
    pub warned_overflow: bool,
    /// What the view set on the GPU was prepared for. `None` = never uploaded.
    pub view_set: Option<ViewSetKey>,
    /// The buffers that the current bind group refers to.
    pub bind_group_key: Option<CullBindings>,
}

impl CullPass {
    /// The pass before the first frame.
    pub fn new() -> (pass: Self)
        ensures
            pass.builder.is_new(),
            pass.prev_objects_gen == u64::MAX,
            !pass.warned_overflow,
            pass.view_set is None,
            pass.bind_group_key is None,
    {
        CullPass {
            builder: ViewBuilder::new(),
            prev_objects_gen: u64::MAX,
            warned_overflow: false,
            view_set: None,
            bind_group_key: None,
        }
    }

    /// What preparing `frame` makes of the pass and of the shared state.
    pub open spec fn prepared(
        &self,
        pre: &CullPass,
        shared: &PipelineShared,
        pre_shared: &PipelineShared,
        frame: CullFrame,
    ) -> bool {
        let face_count = slots_in_use(frame.shadow_matrix_count);
        let draw_count = draw_count_of(frame.draw_call_count);
        let objects_moved = frame.movable_objects_generation != pre.prev_objects_gen;
        &&& self.builder.built(
            &pre.builder,
            frame.camera,
            frame.lights@,
            frame.transforms@,
            face_count as u32,
        )
        &&& self.prev_objects_gen == frame.movable_objects_generation
        &&& self.warned_overflow == (pre.warned_overflow || draw_count > MAX_DRAWS_PER_VIEW)
        &&& self.view_set == Some(view_set_key(frame))
        &&& self.bind_group_key == pre.bind_group_key
        &&& shared.faces_folded(pre_shared, &self.builder, objects_moved, face_count)
        &&& shared.view_count == 1 + face_count
        &&& shared.face_count == face_count
        &&& shared.draw_count == draw_count
        &&& shared.atlas_initialized == pre_shared.atlas_initialized
        &&& shared.supports_multi_draw_count == pre_shared.supports_multi_draw_count
    }

    /// What is uploaded for the prepared pass and shared state. The view set is uploaded
    /// unless all that it was last uploaded for is as before.
    pub open spec fn uploads_match(
        &self,
        pre: &CullPass,
        shared: &PipelineShared,
        uploads: CullUploads,
    ) -> bool {
        let view_count = shared.view_count as int;
        let face_count = shared.face_count as int;
        &&& match uploads.views {
            Some(views) => {
                &&& self.view_set != pre.view_set
                &&& native_bytes(views_words(self.builder.views@.take(view_count)), views@)
            },
            None => self.view_set == pre.view_set,
        }
        &&& match uploads.face_mats {
            Some(mats) => {
                &&& face_count > 0
                &&& native_bytes(matrices_words(self.builder.face_mats@.take(face_count)), mats@)
            },
            None => face_count == 0,
        }
        &&& native_bytes(
            seq![
                shared.draw_count,
                shared.view_count,
                if shared.supports_multi_draw_count {
                    1u32
                } else {
                    0u32
                },
                MAX_DRAWS_PER_VIEW,
            ],
            uploads.params@,
        )
        &&& uploads.view_counts@ == Seq::new(4 * shared.view_count as nat, |i: int| 0u8)
        &&& uploads.warn_overflow == (shared.draw_count > MAX_DRAWS_PER_VIEW
            && !pre.warned_overflow)
    }

    /// The per-frame CPU work: rebuilds the view set, folds the change reports into
    /// the shared state and encodes the uploads.
    pub fn prepare(&mut self, shared: &mut PipelineShared, frame: &CullFrame) -> (uploads: CullUploads)
        requires
            old(self).builder.wf(),
            transforms_cover(
                frame.lights@,
                frame.transforms@,
                slots_in_use(frame.shadow_matrix_count),
            ),
        ensures
            final(self).prepared(old(self), final(shared), old(shared), *frame),
            final(self).uploads_match(old(self), final(shared), uploads),
    {
        let face_count: u32 = shadow_face_count(frame.shadow_matrix_count);
        let low: u64 = frame.draw_call_count as u64 % 0x1_0000_0000u64;
        let draw_count: u32 = low as u32;

        // Any movable object motion re-dirties every active face.
        let objects_moved: bool = frame.movable_objects_generation != self.prev_objects_gen;
        self.prev_objects_gen = frame.movable_objects_generation;

        let view_count: u32 = self.builder.build(
            &frame.camera,
            frame.lights,
            frame.transforms,
            face_count,
        );

        shared.fold_faces(&self.builder, objects_moved, face_count);
        shared.view_count = view_count;
        shared.face_count = face_count;
        shared.draw_count = draw_count;

        let key: ViewSetKey = ViewSetKey {
            camera_generation: frame.camera_generation,
            movable_lights_generation: frame.movable_lights_generation,
            movable_objects_generation: frame.movable_objects_generation,
            draw_count,
        };
        let views_changed: bool = match self.view_set {
            Some(current) => current != key,
            None => true,
        };
        self.view_set = Some(key);
        let views: Option<Vec<u8>> = if views_changed {
            Some(encode_views(self.builder.views(), view_count as usize))
        } else {
            None
        };
        let face_mats: Option<Vec<u8>> = if face_count > 0 {
            Some(encode_matrices(self.builder.face_mats(), face_count as usize))
        } else {
            None
        };
        let compact: u32 = if shared.supports_multi_draw_count {
            1
        } else {
            0
        };
        let param_words: [u32; 4] = [draw_count, view_count, compact, MAX_DRAWS_PER_VIEW];
        assert(param_words@ =~= seq![draw_count, view_count, compact, MAX_DRAWS_PER_VIEW]);
        let params: Vec<u8> = word_bytes(param_words.as_slice());
        let view_counts: Vec<u8> = vec![0u8; view_count as usize * 4];
        assert(view_counts@ =~= Seq::new(4 * view_count as nat, |i: int| 0u8));

        let warn_overflow: bool = draw_count > MAX_DRAWS_PER_VIEW && !self.warned_overflow;
        if warn_overflow {
            self.warned_overflow = true;
        }
        CullUploads { views, face_mats, params, view_counts, warn_overflow }
    }

    /// The dispatch of this frame, if there is anything to cull: one thread per draw
    /// along x, in whole workgroups, and one row per view along y.
    pub fn execute(&mut self, shared: &PipelineShared, key: CullBindings) -> (dispatch: Option<
        CullDispatch,
    >)
        ensures
            match dispatch {
                Some(d) => {
                    &&& shared.draw_count > 0 && shared.view_count > 0
                    &&& d.rebuild_bind_group == (old(self).bind_group_key != Some(key))
                    &&& d.workgroups.0 == (shared.draw_count + WORKGROUP_SIZE - 1) / (
                    WORKGROUP_SIZE as int)
                    &&& d.workgroups.1 == shared.view_count
                    &&& d.workgroups.2 == 1
                    &&& final(self).bind_group_key == Some(key)
                },
                None => {
                    &&& shared.draw_count == 0 || shared.view_count == 0
                    &&& final(self).bind_group_key == old(self).bind_group_key
                },
            },
            final(self).builder == old(self).builder,
            final(self).prev_objects_gen == old(self).prev_objects_gen,
            final(self).warned_overflow == old(self).warned_overflow,
            final(self).view_set == old(self).view_set,
    {
        if shared.draw_count == 0 || shared.view_count == 0 {
            return None;
        }
        let rebuild_bind_group: bool = match self.bind_group_key {
            Some(current) => current != key,
            None => true,
        };
        self.bind_group_key = Some(key);
        let whole: u32 = shared.draw_count / WORKGROUP_SIZE;
        let groups: u32 = if shared.draw_count % WORKGROUP_SIZE == 0 {
            whole
        } else {
            whole + 1
        };
        Some(CullDispatch { rebuild_bind_group, workgroups: (groups, shared.view_count, 1) })
    }
}

proof fn words_per_view(views: Seq<GpuView>)
    ensures
        4 * views_words(views).len() == views.len() * VIEW_STRIDE,
    decreases views.len(),
{
    if views.len() > 0 {
        words_per_view(views.drop_last());
    }
}

proof fn words_per_matrix(mats: Seq<[u32; 16]>)
    ensures
        4 * matrices_words(mats).len() == mats.len() * MATRIX_STRIDE,
    decreases mats.len(),
{
    if mats.len() > 0 {
        words_per_matrix(mats.drop_last());
    }
}

/// Every upload has the size that its entries take in the shader's layout, and fits
/// the buffer that `PipelineShared::layout` sizes for it.
pub proof fn uploads_fit_their_buffers(
    pass: &CullPass,
    pre: &CullPass,
    shared: &PipelineShared,
    pre_shared: &PipelineShared,
    frame: CullFrame,
    uploads: CullUploads,
)
    requires
        pass.prepared(pre, shared, pre_shared, frame),
        pass.uploads_match(pre, shared, uploads),
    ensures
        uploads.views matches Some(views) ==> {
            &&& views@.len() == shared.view_count * VIEW_STRIDE
            &&& views@.len() <= MAX_VIEWS * VIEW_STRIDE
        },
        uploads.face_mats matches Some(mats) ==> {
            &&& mats@.len() == shared.face_count * MATRIX_STRIDE
            &&& mats@.len() <= MAX_SHADOW_FACES * MATRIX_STRIDE
        },
        uploads.params@.len() == 16,
        uploads.view_counts@.len() == shared.view_count * COUNT_STRIDE,
        uploads.view_counts@.len() <= MAX_VIEWS * COUNT_STRIDE,
{
    words_per_view(pass.builder.views@.take(shared.view_count as int));
    words_per_matrix(pass.builder.face_mats@.take(shared.face_count as int));
}

/// The view set is uploaded in the first frame, and from then on exactly when the camera
/// generation, the movable-lights generation, the movable-objects generation or the draw
/// count differs from the frame before.
pub proof fn views_are_uploaded_on_change(
    first: &CullPass,
    second: &CullPass,
    third: &CullPass,
    shared: (PipelineShared, PipelineShared, PipelineShared),
    frames: (CullFrame, CullFrame),
    uploads: (CullUploads, CullUploads),
)
    requires
        second.prepared(first, &shared.1, &shared.0, frames.0),
        second.uploads_match(first, &shared.1, uploads.0),
        third.prepared(second, &shared.2, &shared.1, frames.1),
        third.uploads_match(second, &shared.2, uploads.1),
    ensures
        first.view_set is None ==> uploads.0.views is Some,
        uploads.1.views is Some <==> {
            ||| frames.1.camera_generation != frames.0.camera_generation
            ||| frames.1.movable_lights_generation != frames.0.movable_lights_generation
            ||| frames.1.movable_objects_generation != frames.0.movable_objects_generation
            ||| draw_count_of(frames.1.draw_call_count) != draw_count_of(frames.0.draw_call_count)
        },
{
}

/// A skipped upload leaves nothing stale: when the camera, the lights, their transforms
/// and the face range are those of the frame before, so is the whole view set.
pub proof fn unchanged_scene_keeps_the_view_set(
    first: &CullPass,
    second: &CullPass,
    third: &CullPass,
    shared: (PipelineShared, PipelineShared, PipelineShared),
    frames: (CullFrame, CullFrame),
)
    requires
        second.prepared(first, &shared.1, &shared.0, frames.0),
        third.prepared(second, &shared.2, &shared.1, frames.1),
        frames.1.camera == frames.0.camera,
        frames.1.lights@ == frames.0.lights@,
        frames.1.transforms@ == frames.0.transforms@,
        frames.1.shadow_matrix_count == frames.0.shadow_matrix_count,
    ensures
        third.builder.views@ == second.builder.views@,
        third.builder.face_mats@ == second.builder.face_mats@,
        shared.2.view_count == shared.1.view_count,
{
    let (before, after) = (&second.builder, &third.builder);
    assert forall|v: int| 0 <= v < 1 + FACE_SLOTS implies after.views@[v] == before.views@[v] by {
        if v > 0 {
            let face = v - 1;
            let active = (before.face_active@[face], after.face_active@[face]);
            assert(v == 1 + face);
        }
    }
    assert(after.views@ =~= before.views@);
    assert forall|f: int| 0 <= f < FACE_SLOTS implies after.face_mats@[f] == before.face_mats@[f] by {
        let active = (before.face_active@[f], after.face_active@[f]);
    }
    assert(after.face_mats@ =~= before.face_mats@);
}

/// One dispatch covers every draw, and no workgroup is idle: with `groups` workgroups
/// as `CullPass::execute` counts them, draw `d` has a thread, and the last workgroup
/// has a draw.
pub proof fn dispatch_covers_every_draw(draw_count: u32, d: int)
    requires
        0 <= d < draw_count,
    ensures
        ({
            let groups = (draw_count + WORKGROUP_SIZE - 1) / (WORKGROUP_SIZE as int);
            &&& d < groups * WORKGROUP_SIZE
            &&& (groups - 1) * WORKGROUP_SIZE < draw_count
        }),
{
}

proof fn views_words_by_index(views: Seq<GpuView>, v: int, j: int)
    requires
        0 <= v < views.len(),
        0 <= j < 44,
    ensures
        views_words(views).len() == 44 * views.len(),
        views_words(views)[44 * v + j] == view_words(views[v])[j],
    decreases views.len(),
{
    words_per_view(views);
    words_per_view(views.drop_last());
    if v < views.len() - 1 {
        views_words_by_index(views.drop_last(), v, j);
    }
}

proof fn matrices_words_by_index(mats: Seq<[u32; 16]>, f: int, j: int)
    requires
        0 <= f < mats.len(),
        0 <= j < 16,
    ensures
        matrices_words(mats).len() == 16 * mats.len(),
        matrices_words(mats)[16 * f + j] == mats[f]@[j],
    decreases mats.len(),
{
    words_per_matrix(mats);
    words_per_matrix(mats.drop_last());
    if f < mats.len() - 1 {
        matrices_words_by_index(mats.drop_last(), f, j);
    }
}

/// The word of a view at each place of its 44: the matrix, the six planes in order, the
/// flags, the padding.
pub proof fn views_are_laid_out_field_by_field(view: GpuView, j: int)
    requires
        0 <= j < 44,
    ensures
        view_words(view).len() == 44,
        j < 16 ==> view_words(view)[j] == view.view_proj@[j],
        16 <= j < 40 ==> view_words(view)[j] == view.planes@[(j - 16) / 4]@[(j - 16) % 4],
        j == 40 ==> view_words(view)[j] == view.flags,
        j > 40 ==> view_words(view)[j] == view._pad@[j - 41],
{
    if 16 <= j < 40 {
        let p = (j - 16) / 4;
        assert(p == 0 || p == 1 || p == 2 || p == 3 || p == 4 || p == 5);
    }
}

/// The view upload holds every view in use, 44 words each, and every word of a view at its
/// place.
pub proof fn view_upload_holds_every_view(
    pass: &CullPass,
    pre: &CullPass,
    shared: &PipelineShared,
    pre_shared: &PipelineShared,
    frame: CullFrame,
    uploads: CullUploads,
) -> (words: Seq<u32>)
    requires
        pass.prepared(pre, shared, pre_shared, frame),
        pass.uploads_match(pre, shared, uploads),
        uploads.views is Some,
    ensures
        native_bytes(words, uploads.views->0@),
        words.len() == 44 * shared.view_count,
        forall|v: int, j: int|
            #![trigger words[44 * v + j]]
            0 <= v < shared.view_count && 0 <= j < 44 ==> {
                let view = pass.builder.views@[v];
                &&& j < 16 ==> words[44 * v + j] == view.view_proj@[j]
                &&& 16 <= j < 40 ==> words[44 * v + j] == view.planes@[(j - 16) / 4]@[(j - 16) % 4]
                &&& j == 40 ==> words[44 * v + j] == view.flags
                &&& j > 40 ==> words[44 * v + j] == view._pad@[j - 41]
            },
{
    let views = pass.builder.views@.take(shared.view_count as int);
    let words = views_words(views);
    words_per_view(views);
    assert forall|v: int, j: int|
        #![trigger words[44 * v + j]]
        0 <= v < shared.view_count && 0 <= j < 44 implies {
        let view = pass.builder.views@[v];
        &&& j < 16 ==> words[44 * v + j] == view.view_proj@[j]
        &&& 16 <= j < 40 ==> words[44 * v + j] == view.planes@[(j - 16) / 4]@[(j - 16) % 4]
        &&& j == 40 ==> words[44 * v + j] == view.flags
        &&& j > 40 ==> words[44 * v + j] == view._pad@[j - 41]
    } by {
        views_words_by_index(views, v, j);
        views_are_laid_out_field_by_field(views[v], j);
    }
    words
}

/// The matrix upload, made exactly when a face slot is in use, holds the matrix of every
/// slot in use, 16 words each.
pub proof fn matrix_upload_holds_every_face(
    pass: &CullPass,
    pre: &CullPass,
    shared: &PipelineShared,
    pre_shared: &PipelineShared,
    frame: CullFrame,
    uploads: CullUploads,
) -> (words: Seq<u32>)
    requires
        pass.prepared(pre, shared, pre_shared, frame),
        pass.uploads_match(pre, shared, uploads),
    ensures
        uploads.face_mats is Some <==> shared.face_count > 0,
        uploads.face_mats matches Some(mats) ==> {
            &&& native_bytes(words, mats@)
            &&& words.len() == 16 * shared.face_count
        },
        forall|f: int, j: int|
            #![trigger words[16 * f + j]]
            0 <= f < shared.face_count && 0 <= j < 16 ==> words[16 * f + j]
                == pass.builder.face_mats@[f]@[j],
{
    let mats = pass.builder.face_mats@.take(shared.face_count as int);
    let words = matrices_words(mats);
    words_per_matrix(mats);
    assert forall|f: int, j: int|
        #![trigger words[16 * f + j]]
        0 <= f < shared.face_count && 0 <= j < 16 implies words[16 * f + j]
        == pass.builder.face_mats@[f]@[j] by {
        matrices_words_by_index(mats, f, j);
    }
    words
}

/// The parameters are the draw count, the view count, whether lists are compacted, and the
/// capacity of a list; every view in use gets a counter of zero; an overflow is reported
/// once.
pub proof fn parameters_describe_the_frame(
    pass: &CullPass,
    pre: &CullPass,
    shared: &PipelineShared,
    pre_shared: &PipelineShared,
    frame: CullFrame,
    uploads: CullUploads,
) -> (words: Seq<u32>)
    requires
        pass.prepared(pre, shared, pre_shared, frame),
        pass.uploads_match(pre, shared, uploads),
    ensures
        native_bytes(words, uploads.params@),
        words.len() == 4,
        words[0] == shared.draw_count,
        words[1] == shared.view_count,
        words[2] == 1 <==> shared.supports_multi_draw_count,
        words[2] == 0 <==> !shared.supports_multi_draw_count,
        words[3] == 4096,
        uploads.view_counts@.len() == 4 * shared.view_count,
        forall|i: int| 0 <= i < uploads.view_counts@.len() ==> #[trigger] uploads.view_counts@[i] == 0,
        uploads.warn_overflow <==> shared.draw_count > 4096 && !pre.warned_overflow,
        pass.warned_overflow <==> shared.draw_count > 4096 || pre.warned_overflow,
{
    seq![
        shared.draw_count,
        shared.view_count,
        if shared.supports_multi_draw_count {
            1u32
        } else {
            0u32
        },
        MAX_DRAWS_PER_VIEW,
    ]
}

/// The counts of a prepared frame, and what is remembered of it: at most 256 face slots are
/// in use, one view more than that, and all but the low 32 bits of the draw count are
/// dropped. Activity, pending work and rendered faces follow the frame's view set, with
/// objects moved exactly when their generation differs from that of the frame before.
pub proof fn prepared_frame_follows_the_scene(
    pass: &CullPass,
    pre: &CullPass,
    shared: &PipelineShared,
    pre_shared: &PipelineShared,
    frame: CullFrame,
    face: int,
)
    requires
        pass.prepared(pre, shared, pre_shared, frame),
        0 <= face < 256,
    ensures
        frame.shadow_matrix_count <= 256 ==> shared.face_count == frame.shadow_matrix_count,
        frame.shadow_matrix_count > 256 ==> shared.face_count == 256,
        shared.view_count == 1 + shared.face_count,
        shared.draw_count == frame.draw_call_count as int % 0x1_0000_0000,
        shared.supports_multi_draw_count == pre_shared.supports_multi_draw_count,
        shared.atlas_initialized == pre_shared.atlas_initialized,
        pass.prev_objects_gen == frame.movable_objects_generation,
        pass.bind_group_key == pre.bind_group_key,
        pass.builder.built(
            &pre.builder,
            frame.camera,
            frame.lights@,
            frame.transforms@,
            shared.face_count,
        ),
        shared.face_active@[face] == pass.builder.face_active@[face],
        !shared.face_active@[face] ==> !shared.face_dirty@[face]
            && !shared.face_rendered_once@[face],
        shared.face_active@[face] ==> {
            &&& face < shared.face_count
            &&& shared.face_rendered_once@[face] == pre_shared.face_rendered_once@[face]
            &&& shared.face_dirty@[face] <==> {
                ||| pre_shared.face_dirty@[face]
                ||| !pre_shared.face_rendered_once@[face]
                ||| pass.builder.face_changed@[face]
                ||| frame.movable_objects_generation != pre.prev_objects_gen
            }
        },
{
    let moved = frame.movable_objects_generation != pre.prev_objects_gen;
    let count = slots_in_use(frame.shadow_matrix_count);
    folding_accumulates_work(shared, pre_shared, &pass.builder, moved, count, face);
    active_slots_are_owned(
        &pre.builder,
        &pass.builder,
        frame.camera,
        frame.lights@,
        frame.transforms@,
        count as u32,
        face,
    );
}

/// Face slots in use and the draw count of a frame: the lengths of the scene's lists, the
/// one capped at the 256 slots of the atlas, the other cut to 32 bits.
pub proof fn lists_are_cut_to_size(shadow_matrix_count: usize, draw_call_count: usize)
    ensures
        shadow_matrix_count <= 256 ==> slots_in_use(shadow_matrix_count) == shadow_matrix_count,
        shadow_matrix_count > 256 ==> slots_in_use(shadow_matrix_count) == 256,
        draw_call_count <= u32::MAX ==> draw_count_of(draw_call_count) == draw_call_count,
        draw_count_of(draw_call_count) == draw_call_count as int % 0x1_0000_0000,
        WORKGROUP_SIZE == 64,
{
}

} // verus!
