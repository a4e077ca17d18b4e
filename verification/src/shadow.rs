//! Single-pass tiled shadow atlas.
//!
//! Every dirty shadow face is rendered depth-only into one 2D atlas inside one render
//! pass, using per-face viewports. Face `f` draws the list that the culling pass made
//! for view `1 + f`.
//!
//! Tile lifecycle:
//! * First run - the whole attachment is cleared, and all active faces render.
//! * Steady state - clean tiles are preserved; each dirty tile is cleared in-pass, then
//!   re-renders its culled geometry.
//! * No dirty faces - nothing is encoded.

use vstd::prelude::*;

use crate::atlas::{face_viewport, in_tile, in_viewport, tiles_never_overlap, viewport_of};
use crate::bytes::{
    face_table, face_table_words, native_bytes, table_entries_hold_their_face,
};
use crate::cull::{slots_in_use, CullFrame, CullPass};
use crate::errors::PassError;
use crate::number;
use crate::shared::{count_start, indirect_start, PipelineShared};
use crate::views::{active_slots_are_owned, rebuilding_reports_no_change};
use crate::{ATLAS_RES, FACE_BUF_STRIDE, FACE_SLOTS, MAX_DRAWS_PER_VIEW, MAX_SHADOW_FACES};

verus! {

/// Identity of the scene buffer that the bind group refers to: a reallocation can
/// keep the address while the size changes, so both count.
#[derive(Clone, Copy, Debug, PartialEq, Eq, Structural)]
pub struct AtlasBindings {
    pub instances_ptr: usize,
    pub instances_size: u64,
}

/// The culled draws of one face.
#[derive(Clone, Copy, Debug)]
pub struct FaceGeometry {
    /// Dynamic offset of the face's entry in the view-index table.
    pub dyn_offset: u32,
    /// Byte offset of the first draw command.
    pub indirect_offset: u64,
    /// Byte offset of the GPU counter that holds the number of draws; without one,
    /// `max_draws` commands are drawn.
    pub count_offset: Option<u64>,
    pub max_draws: u32,
}

/// The work on one tile of the atlas.
#[derive(Clone, Copy, Debug)]
pub struct FaceTile {
    pub face: u32,
    /// Viewport and scissor rectangle `(x, y, w, h)`.
    pub viewport: (u32, u32, u32, u32),
    /// Reset the tile to the far plane first.
    pub clear_tile: bool,
    pub geometry: Option<FaceGeometry>,
}

/// The render pass to encode.
pub struct AtlasPlan {
    /// Clear the whole attachment on load; it is preserved otherwise.
    pub clear_attachment: bool,
    /// The bind group must be created anew first.
    pub rebuild_bind_group: bool,
    pub tiles: Vec<FaceTile>,
}

/// Faces that the atlas pass looks at.
pub open spec fn atlas_face_count(shared: PipelineShared) -> int {
    if shared.face_count <= MAX_SHADOW_FACES {
        shared.face_count as int
    } else {
        MAX_SHADOW_FACES as int
    }
}

/// The face is rendered by the next run of the atlas pass. The first run renders every
/// active face.
pub open spec fn face_pending(shared: PipelineShared, face: int) -> bool {
    &&& 0 <= face < atlas_face_count(shared)
    &&& shared.face_active@[face]
    &&& shared.face_dirty@[face] || !shared.atlas_initialized
}

/// The pending faces below `n`, in ascending order.
pub open spec fn pending_faces(shared: PipelineShared, n: int) -> Seq<int>
    decreases n,
{
    if n <= 0 {
        Seq::empty()
    } else if face_pending(shared, n - 1) {
        pending_faces(shared, n - 1).push(n - 1)
    } else {
        pending_faces(shared, n - 1)
    }
}

/// The pass has nothing to do.
pub open spec fn atlas_idle(shared: PipelineShared) -> bool {
    &&& shared.atlas_initialized
    &&& forall|f: int| !#[trigger] face_pending(shared, f)
}

/// The draws of a face: at most a full list of the face's view, starting at that
/// view's list, counted by that view's counter where the device can.
pub open spec fn geometry_of(shared: PipelineShared, face: int) -> Option<FaceGeometry> {
    if shared.draw_count == 0 {
        None
    } else {
        Some(
            FaceGeometry {
                dyn_offset: (face * FACE_BUF_STRIDE) as u32,
                indirect_offset: indirect_start(1 + face) as u64,
                count_offset: if shared.supports_multi_draw_count {
                    Some(count_start(1 + face) as u64)
                } else {
                    None
                },
                max_draws: if shared.draw_count <= MAX_DRAWS_PER_VIEW {
                    shared.draw_count
                } else {
                    MAX_DRAWS_PER_VIEW
                },
            },
        )
    }
}

/// The work on the tile of `face`.
pub open spec fn tile_of(shared: PipelineShared, face: int) -> FaceTile {
    let (x, y, w, h) = viewport_of(face);
    FaceTile {
        face: face as u32,
        viewport: (x as u32, y as u32, w as u32, h as u32),
        clear_tile: shared.atlas_initialized,
        geometry: geometry_of(shared, face),
    }
}

/// The work on the given tiles, in order.
pub open spec fn tiles_of(shared: PipelineShared, faces: Seq<int>) -> Seq<FaceTile> {
    Seq::new(faces.len(), |i: int| tile_of(shared, faces[i]))
}

/// The shared state after the pending faces were rendered: each of them is clean and
/// counts as rendered, the others are as they were.
pub open spec fn atlas_rendered(post: PipelineShared, pre: PipelineShared) -> bool {
    &&& forall|f: int|
        #![trigger post.face_dirty@[f]]
        #![trigger post.face_rendered_once@[f]]
        0 <= f < FACE_SLOTS ==> {
            &&& post.face_dirty@[f] == (pre.face_dirty@[f] && !face_pending(pre, f))
            &&& post.face_rendered_once@[f] == (pre.face_rendered_once@[f] || face_pending(pre, f))
        }
    &&& post.atlas_initialized
    &&& post.face_active == pre.face_active
    &&& post.supports_multi_draw_count == pre.supports_multi_draw_count
    &&& post.view_count == pre.view_count
    &&& post.face_count == pre.face_count
    &&& post.draw_count == pre.draw_count
}

/// What a run of the atlas pass makes of the shared state.
pub open spec fn atlas_executed(
    post: PipelineShared,
    pre: PipelineShared,
    has_main_scene: bool,
) -> bool {
    if atlas_idle(pre) || !has_main_scene {
        post == pre
    } else {
        atlas_rendered(post, pre)
    }
}

/// Exactly the pending faces below `n` are listed, in ascending order.
pub proof fn pending_faces_are_listed(shared: PipelineShared, n: int)
    ensures
        forall|i: int|
            0 <= i < pending_faces(shared, n).len() ==> {
                &&& 0 <= #[trigger] pending_faces(shared, n)[i] < n
                &&& face_pending(shared, pending_faces(shared, n)[i])
            },
        forall|f: int|
            f < n && #[trigger] face_pending(shared, f) ==> pending_faces(shared, n).contains(f),
        forall|i: int, j: int|
            0 <= i < j < pending_faces(shared, n).len() ==> pending_faces(shared, n)[i]
                < pending_faces(shared, n)[j],
    decreases n,
{
    if n > 0 {
        pending_faces_are_listed(shared, n - 1);
        let shorter = pending_faces(shared, n - 1);
        let all = pending_faces(shared, n);
        assert forall|f: int| f < n && #[trigger] face_pending(shared, f) implies all.contains(
            f,
        ) by {
            if f == n - 1 {
                assert(all[all.len() - 1] == f);
            } else {
                let i = choose|i: int| 0 <= i < shorter.len() && shorter[i] == f;
                assert(all[i] == f);
            }
        }
    }
}

/// State of the atlas pass.
pub struct ShadowAtlasPass {
    /// The buffer that the current bind group refers to.
    pub bind_group_key: Option<AtlasBindings>,
}

impl ShadowAtlasPass {
    /// The pass before the first frame.
    pub fn new() -> (pass: Self)
        ensures
            pass.bind_group_key is None,
    {
        ShadowAtlasPass { bind_group_key: None }
    }

    /// The view-index table: the entry of face `f` holds `1 + f`, the view whose culled
    /// list the face draws.
    pub fn face_view_table() -> (bytes: Vec<u8>)
        ensures
            native_bytes(face_table_words(1), bytes@),
            bytes@.len() == MAX_SHADOW_FACES * FACE_BUF_STRIDE,
    {
        face_table(1)
    }

    /// The work on the tile of `face`.
    fn plan_tile(shared: &PipelineShared, face: u32) -> (tile: FaceTile)
        requires
            face < MAX_SHADOW_FACES,
        ensures
            tile == tile_of(*shared, face as int),
    {
        let viewport: (u32, u32, u32, u32) = face_viewport(face);
        let geometry: Option<FaceGeometry> = if shared.draw_count > 0 {
            let view: u32 = 1 + face;
            let count_offset: Option<u64> = if shared.supports_multi_draw_count {
                Some(PipelineShared::count_offset(view))
            } else {
                None
            };
            Some(
                FaceGeometry {
                    dyn_offset: face * FACE_BUF_STRIDE as u32,
                    indirect_offset: PipelineShared::indirect_offset(view),
                    count_offset,
                    max_draws: if shared.draw_count <= MAX_DRAWS_PER_VIEW {
                        shared.draw_count
                    } else {
                        MAX_DRAWS_PER_VIEW
                    },
                },
            )
        } else {
            None
        };
        FaceTile { face, viewport, clear_tile: shared.atlas_initialized, geometry }
    }

    /// Plans the render pass of this frame, if there is one, and marks the faces that
    /// it renders as clean. `key` identifies the instances buffer.
    pub fn execute(
        &mut self,
        shared: &mut PipelineShared,
        has_main_scene: bool,
        key: AtlasBindings,
    ) -> (result: Result<Option<AtlasPlan>, PassError>)
        ensures
            atlas_executed(*final(shared), *old(shared), has_main_scene),
            match result {
                Ok(None) => {
                    &&& atlas_idle(*old(shared))
                    &&& *final(self) == *old(self)
                },
                Err(PassError::InvalidPassConfig(text)) => {
                    &&& !atlas_idle(*old(shared)) && !has_main_scene
                    &&& text@ == "PipelineShadowAtlas requires main_scene"@
                    &&& *final(self) == *old(self)
                },
                Ok(Some(plan)) => {
                    &&& !atlas_idle(*old(shared)) && has_main_scene
                    &&& plan.clear_attachment == !old(shared).atlas_initialized
                    &&& plan.rebuild_bind_group == (old(self).bind_group_key != Some(key))
                    &&& plan.tiles@ == tiles_of(
                        *old(shared),
                        pending_faces(*old(shared), FACE_SLOTS as int),
                    )
                    &&& final(self).bind_group_key == Some(key)
                },
            },
            result is Ok && result->Ok_0 is None <==> old(shared).atlas_initialized && forall|f: int|
                0 <= f < 256 && f < old(shared).face_count && #[trigger] old(shared).face_active@[f]
                    ==> !old(shared).face_dirty@[f],
            result is Ok && result->Ok_0 is Some ==> {
                let tiles = result->Ok_0->0.tiles@;
                let cleared = result->Ok_0->0.clear_attachment;
                &&& cleared == !old(shared).atlas_initialized
                // Exactly the active faces in use with work, each once and in order.
                &&& forall|k: int|
                    0 <= k < tiles.len() ==> {
                        let face = (#[trigger] tiles[k]).face;
                        &&& face < 256
                        &&& face < old(shared).face_count
                        &&& old(shared).face_active@[face as int]
                        &&& old(shared).face_dirty@[face as int] || cleared
                    }
                &&& forall|f: int|
                    0 <= f < 256 && f < old(shared).face_count
                        && #[trigger] old(shared).face_active@[f] && (old(shared).face_dirty@[f]
                        || cleared) ==> exists|k: int|
                        0 <= k < tiles.len() && (#[trigger] tiles[k]).face == f
                &&& forall|k: int, l: int|
                    0 <= k < l < tiles.len() ==> (#[trigger] tiles[k]).face
                        < (#[trigger] tiles[l]).face
                // Each in its own tile, which is cleared unless everything was.
                &&& forall|k: int|
                    0 <= k < tiles.len() ==> {
                        let tile = #[trigger] tiles[k];
                        &&& tile.viewport.0 == tile.face % 16 * 512
                        &&& tile.viewport.1 == tile.face / 16 * 512
                        &&& tile.viewport.2 == 512
                        &&& tile.viewport.3 == 512
                        &&& tile.clear_tile == !cleared
                        &&& tile.geometry is Some <==> old(shared).draw_count > 0
                    }
                // Each with the draws of its own view.
                &&& forall|k: int|
                    0 <= k < tiles.len() && (#[trigger] tiles[k]).geometry is Some ==> {
                        let (face, geometry) = (tiles[k].face, tiles[k].geometry->0);
                        &&& geometry.dyn_offset == face * 256
                        &&& geometry.indirect_offset == (1 + face) * 81920
                        &&& geometry.count_offset is Some
                            <==> old(shared).supports_multi_draw_count
                        &&& geometry.count_offset is Some ==> geometry.count_offset->0 == (1 + face)
                            * 4
                        &&& old(shared).draw_count <= 4096 ==> geometry.max_draws
                            == old(shared).draw_count
                        &&& old(shared).draw_count > 4096 ==> geometry.max_draws == 4096
                    }
            },
    {
        let face_count: usize = if shared.face_count <= MAX_SHADOW_FACES {
            shared.face_count as usize
        } else {
            FACE_SLOTS
        };
        // The first run must clear the whole attachment, even if no face is active yet.
        let needs_init: bool = !shared.atlas_initialized;
        let mut tiles: Vec<FaceTile> = Vec::new();
        let mut f: usize = 0;
        while f < face_count
            invariant
                f <= face_count <= FACE_SLOTS,
                face_count == atlas_face_count(*shared),
                needs_init == !shared.atlas_initialized,
                *shared == *old(shared),
                tiles@ =~= tiles_of(*shared, pending_faces(*shared, f as int)),
            decreases face_count - f,
        {
            if shared.face_active[f] && (shared.face_dirty[f] || needs_init) {
                assert(face_pending(*shared, f as int));
                tiles.push(Self::plan_tile(shared, f as u32));
            }
            f += 1;
        }
        proof {
            pending_faces_are_listed(*shared, face_count as int);
            no_pending_faces_beyond(*shared, face_count as int, FACE_SLOTS as int);
            if tiles@.len() == 0 {
                assert forall|g: int| !#[trigger] face_pending(*shared, g) by {
                    if face_pending(*shared, g) {
                        assert(pending_faces(*shared, face_count as int).contains(g));
                    }
                }
            } else {
                assert(face_pending(*shared, pending_faces(*shared, face_count as int)[0]));
            }
            tiles_follow_the_faces(*shared, tiles@);
            assert forall|g: int|
                0 <= g < 256 && g < shared.face_count && #[trigger] shared.face_active@[g] && (
                shared.face_dirty@[g] || needs_init) implies face_pending(*shared, g) by {}
        }
        if tiles.len() == 0 && !needs_init {
            return Ok(None);
        }
        if !has_main_scene {
            return Err(PassError::InvalidPassConfig("PipelineShadowAtlas requires main_scene"));
        }
        let rebuild_bind_group: bool = match self.bind_group_key {
            Some(current) => current != key,
            None => true,
        };
        self.bind_group_key = Some(key);

        // Clearing per face keeps flags of other faces intact.
        let ghost pre = *shared;
        let mut f: usize = 0;
        while f < face_count
            invariant
                f <= face_count <= FACE_SLOTS,
                face_count == atlas_face_count(pre),
                needs_init == !pre.atlas_initialized,
                shared.atlas_initialized == pre.atlas_initialized,
                shared.face_active == pre.face_active,
                shared.supports_multi_draw_count == pre.supports_multi_draw_count,
                shared.view_count == pre.view_count,
                shared.face_count == pre.face_count,
                shared.draw_count == pre.draw_count,
                forall|k: int|
                    0 <= k < FACE_SLOTS ==> #[trigger] shared.face_dirty@[k] == (pre.face_dirty@[k]
                        && !(k < f && face_pending(pre, k))),
                forall|k: int|
                    0 <= k < FACE_SLOTS ==> #[trigger] shared.face_rendered_once@[k] == (
                    pre.face_rendered_once@[k] || k < f && face_pending(pre, k)),
            decreases face_count - f,
        {
            if shared.face_active[f] && (shared.face_dirty[f] || needs_init) {
                assert(face_pending(pre, f as int));
                shared.face_dirty[f] = false;
                shared.face_rendered_once[f] = true;
            }
            f += 1;
        }
        shared.atlas_initialized = true;

        Ok(Some(AtlasPlan { clear_attachment: needs_init, rebuild_bind_group, tiles }))
    }
}

/// Listing further than the faces in use adds nothing.
proof fn no_pending_faces_beyond(shared: PipelineShared, n: int, m: int)
    requires
        atlas_face_count(shared) <= n <= m,
    ensures
        pending_faces(shared, m) == pending_faces(shared, n),
    decreases m - n,
{
    if n < m {
        no_pending_faces_beyond(shared, n, m - 1);
    }
}

/// The tiles of a run, by their fields: the pending faces in ascending order, each with the
/// tile and the draws of its own.
proof fn tiles_follow_the_faces(shared: PipelineShared, tiles: Seq<FaceTile>)
    requires
        tiles == tiles_of(shared, pending_faces(shared, FACE_SLOTS as int)),
    ensures
        forall|k: int|
            0 <= k < tiles.len() ==> face_pending(shared, (#[trigger] tiles[k]).face as int)
                && tiles[k] == tile_of(shared, tiles[k].face as int),
        forall|f: int| #[trigger]
            face_pending(shared, f) ==> exists|k: int|
                0 <= k < tiles.len() && (#[trigger] tiles[k]).face == f,
        forall|k: int, l: int|
            0 <= k < l < tiles.len() ==> (#[trigger] tiles[k]).face < (#[trigger] tiles[l]).face,
        tiles.len() == 0 ==> forall|f: int| !#[trigger] face_pending(shared, f),
{
    let faces = pending_faces(shared, FACE_SLOTS as int);
    pending_faces_are_listed(shared, FACE_SLOTS as int);
    assert forall|k: int| 0 <= k < tiles.len() implies face_pending(
        shared,
        (#[trigger] tiles[k]).face as int,
    ) && tiles[k] == tile_of(shared, tiles[k].face as int) && tiles[k].face == faces[k] by {
        assert(face_pending(shared, faces[k]));
    }
    assert forall|f: int| #[trigger] face_pending(shared, f) implies exists|k: int|
        0 <= k < tiles.len() && (#[trigger] tiles[k]).face == f by {
        assert(faces.contains(f));
        let k = choose|k: int| 0 <= k < faces.len() && faces[k] == f;
        assert(tiles[k].face == f);
    }
    assert forall|k: int, l: int| 0 <= k < l < tiles.len() implies (#[trigger] tiles[k]).face < (
    #[trigger] tiles[l]).face by {
        assert(faces[k] < faces[l]);
        assert(face_pending(shared, faces[k]) && face_pending(shared, faces[l]));
    }
    if tiles.len() == 0 {
        assert forall|f: int| !#[trigger] face_pending(shared, f) by {
            if face_pending(shared, f) {
                assert(faces.contains(f));
            }
        }
    }
}

/// Every tile that a run re-renders is reset and redrawn: it is cleared with the whole
/// attachment or on its own, never both, and whenever there are draws at all, those of its
/// view are drawn into it, at most a full list, and counted by the GPU where the device
/// can. The table entry bound for the face holds the number of the view whose list it
/// draws.
pub proof fn rendered_tiles_are_redrawn(shared: PipelineShared, i: int)
    requires
        0 <= i < tiles_of(shared, pending_faces(shared, 256)).len(),
    ensures
        ({
            let tile = tiles_of(shared, pending_faces(shared, 256))[i];
            &&& tile.clear_tile != !shared.atlas_initialized
            &&& shared.draw_count > 0 <==> tile.geometry is Some
            &&& tile.geometry is Some ==> {
                let geometry = tile.geometry->0;
                let view = face_table_words(1)[geometry.dyn_offset as int / 4];
                &&& geometry.dyn_offset % 256 == 0
                &&& view == 1 + tile.face
                &&& geometry.indirect_offset == view * 4096 * 20
                &&& shared.supports_multi_draw_count <==> geometry.count_offset is Some
                &&& geometry.count_offset is Some ==> geometry.count_offset->0 == view * 4
                &&& 0 < geometry.max_draws <= shared.draw_count
                &&& geometry.max_draws <= 4096
                &&& geometry.max_draws == shared.draw_count || geometry.max_draws == 4096
            }
        }),
{
    let faces = pending_faces(shared, 256);
    pending_faces_are_listed(shared, 256);
    assert(face_pending(shared, faces[i]));
    table_entries_hold_their_face(1, faces[i], 0);
}

/// What a run leaves behind: if it rendered, the atlas is initialised, the faces that had
/// work are clean and rendered, and nothing else changed; otherwise nothing changed.
pub proof fn runs_clean_what_they_render(
    post: PipelineShared,
    pre: PipelineShared,
    has_main_scene: bool,
    face: int,
)
    requires
        atlas_executed(post, pre, has_main_scene),
        0 <= face < 256,
    ensures
        !has_main_scene ==> post == pre,
        has_main_scene ==> post.atlas_initialized,
        post.face_active@[face] == pre.face_active@[face],
        post.face_count == pre.face_count,
        post.view_count == pre.view_count,
        post.draw_count == pre.draw_count,
        post.supports_multi_draw_count == pre.supports_multi_draw_count,
        has_main_scene && pre.face_active@[face] && face < pre.face_count && (pre.face_dirty@[face]
            || !pre.atlas_initialized) ==> !post.face_dirty@[face]
            && post.face_rendered_once@[face],
        !(pre.face_active@[face] && face < pre.face_count && (pre.face_dirty@[face]
            || !pre.atlas_initialized)) ==> post.face_dirty@[face] == pre.face_dirty@[face]
            && post.face_rendered_once@[face] == pre.face_rendered_once@[face],
{
    assert(face_pending(pre, face) == (pre.face_active@[face] && face < pre.face_count && (
    pre.face_dirty@[face] || !pre.atlas_initialized)));
    if !atlas_idle(pre) && has_main_scene {
        let dirty = post.face_dirty@[face];
    }
}

/// Once the attachment was cleared, a run touches only the tiles of pending faces: a
/// texel of a clean face's tile lies in no viewport of the run.
pub proof fn clean_tiles_are_preserved(shared: PipelineShared, clean: int, i: int, x: int, y: int)
    requires
        0 <= clean < MAX_SHADOW_FACES,
        !face_pending(shared, clean),
        in_tile(clean, x, y),
        0 <= i < pending_faces(shared, FACE_SLOTS as int).len(),
    ensures
        !in_viewport(
            tiles_of(shared, pending_faces(shared, FACE_SLOTS as int))[i].viewport,
            x,
            y,
        ),
{
    pending_faces_are_listed(shared, FACE_SLOTS as int);
    let face = pending_faces(shared, FACE_SLOTS as int)[i];
    assert(face_pending(shared, face));
    if in_tile(face, x, y) {
        tiles_never_overlap(clean, face, x, y);
    }
}

/// No run draws outside the atlas, nor reads a draw command or counter outside the
/// lists of the face's own view.
pub proof fn faces_draw_their_own_list(shared: PipelineShared, face: int, x: int, y: int)
    requires
        face_pending(shared, face),
    ensures
        in_viewport(tile_of(shared, face).viewport, x, y) ==> {
            &&& 0 <= x < ATLAS_RES
            &&& 0 <= y < ATLAS_RES
            &&& in_tile(face, x, y)
        },
        tile_of(shared, face).geometry matches Some(geometry) ==> {
            &&& geometry.dyn_offset == face * FACE_BUF_STRIDE
            &&& geometry.indirect_offset == indirect_start(1 + face)
            &&& geometry.indirect_offset + geometry.max_draws * crate::DRAW_STRIDE
                <= indirect_start(2 + face)
            &&& geometry.count_offset matches Some(offset) ==> offset == count_start(1 + face)
        },
{
}

/// After a frame that was prepared and rendered, no active face in use waits for
/// rendering, and each of them was rendered with its current activation.
pub proof fn rendered_frame_leaves_no_work(
    pass: &CullPass,
    pre_pass: &CullPass,
    prepared: PipelineShared,
    pre: PipelineShared,
    post: PipelineShared,
    frame: CullFrame,
    face: int,
)
    requires
        pass.prepared(pre_pass, &prepared, &pre, frame),
        atlas_executed(post, prepared, true),
        0 <= face < slots_in_use(frame.shadow_matrix_count),
        post.face_active@[face],
    ensures
        !post.face_dirty@[face],
        post.face_rendered_once@[face],
        !face_pending(post, face),
{
    assert(prepared.face_folded(
        &pre,
        &pass.builder,
        frame.movable_objects_generation != pre_pass.prev_objects_gen,
        face,
    )) by {
        let dirty = prepared.face_dirty@[face];
    }
    assert(face_pending(prepared, face) == (prepared.face_dirty@[face]
        || !prepared.atlas_initialized));
    if !atlas_idle(prepared) {
        let dirty = post.face_dirty@[face];
    }
}

/// A face in use that was rendered, whose matrix did not change, and under which no
/// object moved is not rendered again: preparing the next frame leaves it clean.
pub proof fn unchanged_face_stays_clean(
    pass: &CullPass,
    pre_pass: &CullPass,
    prepared: PipelineShared,
    pre: PipelineShared,
    frame: CullFrame,
    face: int,
)
    requires
        pass.prepared(pre_pass, &prepared, &pre, frame),
        0 <= face < slots_in_use(frame.shadow_matrix_count),
        pre.atlas_initialized,
        pre.face_rendered_once@[face],
        !pre.face_dirty@[face],
        !pass.builder.face_changed@[face],
        frame.movable_objects_generation == pre_pass.prev_objects_gen,
    ensures
        !prepared.face_dirty@[face],
        !face_pending(prepared, face),
{
}

/// A face in use is rendered again when its matrix changed, when an object moved, when
/// it was never rendered with its current activation, or when earlier work is pending.
pub proof fn changed_face_is_rendered(
    pass: &CullPass,
    pre_pass: &CullPass,
    prepared: PipelineShared,
    pre: PipelineShared,
    frame: CullFrame,
    face: int,
)
    requires
        pass.prepared(pre_pass, &prepared, &pre, frame),
        0 <= face < slots_in_use(frame.shadow_matrix_count),
        pass.builder.face_active@[face],
        pass.builder.face_changed@[face] || frame.movable_objects_generation
            != pre_pass.prev_objects_gen || !pre.face_rendered_once@[face] || pre.face_dirty@[face],
    ensures
        prepared.face_dirty@[face],
        face_pending(prepared, face),
{
    let dirty = prepared.face_dirty@[face];
}

/// Re-activation forces a re-render: a face that was inactive in one frame, be it because
/// no light owned it or because it was not in use, and is active in the next is rendered
/// in the next, whatever the atlas pass did in between.
pub proof fn reactivated_face_is_rendered(
    first: &CullPass,
    second: &CullPass,
    third: &CullPass,
    pre: PipelineShared,
    prepared: PipelineShared,
    executed: PipelineShared,
    next: PipelineShared,
    frames: (CullFrame, CullFrame),
    has_main_scene: bool,
    face: int,
)
    requires
        second.prepared(first, &prepared, &pre, frames.0),
        atlas_executed(executed, prepared, has_main_scene),
        third.prepared(second, &next, &executed, frames.1),
        0 <= face < FACE_SLOTS,
        !second.builder.face_active@[face],
        third.builder.face_active@[face],
    ensures
        face_pending(next, face),
{
    assert(!prepared.face_rendered_once@[face]);
    assert(!prepared.face_active@[face]);
    assert(!face_pending(prepared, face));
    assert(!executed.face_rendered_once@[face]);
    active_slots_are_owned(
        &second.builder,
        &third.builder,
        frames.1.camera,
        frames.1.lights@,
        frames.1.transforms@,
        slots_in_use(frames.1.shadow_matrix_count) as u32,
        face,
    );
    assert(next.face_dirty@[face]);
}

/// Work is not lost: while the atlas pass cannot run, a pending face that stays active
/// stays pending.
pub proof fn pending_work_survives_a_missing_scene(
    pass: &CullPass,
    pre_pass: &CullPass,
    pre: PipelineShared,
    executed: PipelineShared,
    next: PipelineShared,
    frame: CullFrame,
    face: int,
)
    requires
        face_pending(pre, face),
        atlas_executed(executed, pre, false),
        pass.prepared(pre_pass, &next, &executed, frame),
        face < slots_in_use(frame.shadow_matrix_count),
        pass.builder.face_active@[face],
    ensures
        face_pending(next, face),
{
    let dirty = next.face_dirty@[face];
}

/// An unchanged frame renders nothing: when a frame was prepared and rendered and the
/// same frame is prepared again, the atlas pass is idle. (A matrix that holds a NaN
/// equals nothing, so its face counts as changed in every frame.)
pub proof fn unchanged_frame_renders_nothing(
    first: &CullPass,
    second: &CullPass,
    third: &CullPass,
    pre: PipelineShared,
    prepared: PipelineShared,
    executed: PipelineShared,
    next: PipelineShared,
    frame: CullFrame,
)
    requires
        second.prepared(first, &prepared, &pre, frame),
        atlas_executed(executed, prepared, true),
        third.prepared(second, &next, &executed, frame),
        forall|f: int|
            0 <= f < slots_in_use(frame.shadow_matrix_count) ==> number::all_numbers(
                (#[trigger] second.builder.face_mats@[f])@,
            ),
    ensures
        atlas_idle(next),
{
    let count = slots_in_use(frame.shadow_matrix_count);
    assert forall|f: int| !#[trigger] face_pending(next, f) by {
        if 0 <= f < count {
            let mat = second.builder.face_mats@[f];
            rebuilding_reports_no_change(
                &first.builder,
                &second.builder,
                &third.builder,
                frame.camera,
                frame.lights@,
                frame.transforms@,
                count as u32,
                f,
            );
            let active = (prepared.face_active@[f], executed.face_active@[f], next.face_active@[f]);
            if next.face_active@[f] {
                rendered_frame_leaves_no_work(second, first, prepared, pre, executed, frame, f);
                unchanged_face_stays_clean(third, second, next, executed, frame, f);
            }
        }
    }
}

} // verus!
