//! View-set construction: camera + shadow faces.
//!
//! The matrices and frustum planes arrive computed; this module decides which face
//! slots they occupy, which slots are active and which changed since the previous build.

use vstd::prelude::*;

use crate::number;
use crate::{
    FACES_PER_CASTER, FACE_SLOTS, MAX_SHADOW_FACES, VIEW_FLAG_INACTIVE, VIEW_FLAG_SHADOW,
};

verus! {

/// `GpuLight::light_type` of a directional light: four cascades.
pub const LIGHT_TYPE_DIRECTIONAL: u32 = 0;

/// `GpuLight::light_type` of a point light: six cube faces.
pub const LIGHT_TYPE_POINT: u32 = 1;

/// `GpuLight::light_type` of a spot light: one face.
pub const LIGHT_TYPE_SPOT: u32 = 2;

/// `GpuLight::shadow_index` of a light that casts no shadow.
pub const NO_SHADOW: u32 = u32::MAX;

/// A light as the GPU sees it. The vectors and `inner_angle` are single-precision bit
/// patterns; `shadow_index` and `light_type` are integers.
#[derive(Clone, Copy, Debug)]
pub struct GpuLight {
    /// xyz = position, w = range.
    pub position_range: [u32; 4],
    /// xyz = direction, w = cosine of the outer cone angle.
    pub direction_outer: [u32; 4],
    /// rgb = colour, w = intensity.
    pub color_intensity: [u32; 4],
    /// First shadow face slot of the light, or [`NO_SHADOW`].
    pub shadow_index: u32,
    pub light_type: u32,
    /// Cosine of the inner cone angle (bit pattern).
    pub inner_angle: u32,
    pub _pad: u32,
}

/// A view-projection matrix (column major) with the frustum planes extracted from it,
/// as bit patterns.
#[derive(Clone, Copy, Debug)]
pub struct ViewTransform {
    pub view_proj: [u32; 16],
    /// Normalized frustum planes (nx, ny, nz, d), pointing inward.
    pub planes: [[u32; 4]; 6],
}

/// One culling/rendering view: the camera or a single shadow face.
#[derive(Clone, Copy, Debug)]
pub struct GpuView {
    pub view_proj: [u32; 16],
    /// Normalized frustum planes (nx, ny, nz, d), pointing inward.
    pub planes: [[u32; 4]; 6],
    pub flags: u32,
    pub _pad: [u32; 3],
}

/// Bit patterns of the identity matrix.
pub open spec fn identity() -> [u32; 16] {
    [
        number::ONE, 0, 0, 0,
        0, number::ONE, 0, 0,
        0, 0, number::ONE, 0,
        0, 0, 0, number::ONE,
    ]
}

/// The view that shows `transform` with the given flags.
pub open spec fn view_with(transform: ViewTransform, flags: u32) -> GpuView {
    GpuView { view_proj: transform.view_proj, planes: transform.planes, flags, _pad: [0, 0, 0] }
}

/// The view of a slot that no light uses: identity, flagged as shadow and inactive.
pub open spec fn inactive_view() -> GpuView {
    GpuView {
        view_proj: identity(),
        planes: [
            [0, 0, 0, 0],
            [0, 0, 0, 0],
            [0, 0, 0, 0],
            [0, 0, 0, 0],
            [0, 0, 0, 0],
            [0, 0, 0, 0],
        ],
        flags: VIEW_FLAG_SHADOW | VIEW_FLAG_INACTIVE,
        _pad: [0, 0, 0],
    }
}

fn identity_matrix() -> (m: [u32; 16])
    ensures
        m == identity(),
{
    [
        number::ONE, 0, 0, 0,
        0, number::ONE, 0, 0,
        0, 0, number::ONE, 0,
        0, 0, 0, number::ONE,
    ]
}

impl GpuView {
    /// The view of a slot that no light uses.
    pub fn zeroed_inactive() -> (view: Self)
        ensures
            view == inactive_view(),
            forall|m: int|
                0 <= m < 16 ==> #[trigger] view.view_proj@[m] == (if m % 5 == 0 {
                    0x3f80_0000u32
                } else {
                    0u32
                }),
            forall|p: int, c: int|
                0 <= p < 6 && 0 <= c < 4 ==> #[trigger] view.planes@[p]@[c] == 0,
            view.flags == 3,
            view._pad@ == seq![0u32, 0u32, 0u32],
    {
        assert(1u32 | 2u32 == 3u32) by (bit_vector);
        GpuView {
            view_proj: identity_matrix(),
            planes: [
                [0, 0, 0, 0],
                [0, 0, 0, 0],
                [0, 0, 0, 0],
                [0, 0, 0, 0],
                [0, 0, 0, 0],
                [0, 0, 0, 0],
            ],
            flags: VIEW_FLAG_SHADOW | VIEW_FLAG_INACTIVE,
            _pad: [0, 0, 0],
        }
    }
}

/// Shadow faces that a light of the given type renders. Area lights and unknown types
/// have none.
pub open spec fn faces_of_type(light_type: u32) -> int {
    if light_type == LIGHT_TYPE_POINT {
        6
    } else if light_type == LIGHT_TYPE_SPOT {
        1
    } else if light_type == LIGHT_TYPE_DIRECTIONAL {
        4
    } else {
        0
    }
}

/// The active face range for a requested number of faces.
pub open spec fn face_range(shadow_face_count: u32) -> int {
    if shadow_face_count <= MAX_SHADOW_FACES {
        shadow_face_count as int
    } else {
        MAX_SHADOW_FACES as int
    }
}

/// The light casts shadows and all of its matrix slots lie inside the face range.
pub open spec fn fits(light: GpuLight, range: int) -> bool {
    light.shadow_index != NO_SHADOW && light.shadow_index + FACES_PER_CASTER <= range
}

/// Faces that the light renders this frame.
pub open spec fn faces_needed(light: GpuLight, range: int) -> int {
    if fits(light, range) {
        faces_of_type(light.light_type)
    } else {
        0
    }
}

/// The light renders the face in slot `face`.
pub open spec fn owns(light: GpuLight, range: int, face: int) -> bool {
    light.shadow_index <= face < light.shadow_index + faces_needed(light, range)
}

/// The light that decides a face slot: the last one that owns it.
pub open spec fn owner(lights: Seq<GpuLight>, range: int, face: int) -> Option<int>
    decreases lights.len(),
{
    if lights.len() == 0 {
        None
    } else if owns(lights.last(), range, face) {
        Some(lights.len() - 1)
    } else {
        owner(lights.drop_last(), range, face)
    }
}

/// The transform that the owner `light` supplies for slot `face`.
pub open spec fn supplied(
    lights: Seq<GpuLight>,
    transforms: Seq<Vec<ViewTransform>>,
    light: int,
    face: int,
) -> ViewTransform {
    transforms[light]@[face - lights[light].shadow_index]
}

/// Every light comes with the transforms of the faces that it renders.
pub open spec fn transforms_cover(
    lights: Seq<GpuLight>,
    transforms: Seq<Vec<ViewTransform>>,
    range: int,
) -> bool {
    &&& transforms.len() == lights.len()
    &&& forall|i: int|
        0 <= i < lights.len() ==> faces_needed(#[trigger] lights[i], range) <= transforms[i]@.len()
}

/// The owner of a slot owns it, and no later light does; a slot without an owner is
/// owned by no light.
pub proof fn owner_is_last(lights: Seq<GpuLight>, range: int, face: int)
    ensures
        match owner(lights, range, face) {
            Some(light) => {
                &&& 0 <= light < lights.len()
                &&& owns(lights[light], range, face)
                &&& forall|i: int| light < i < lights.len() ==> !owns(#[trigger] lights[i], range, face)
            },
            None => forall|i: int| 0 <= i < lights.len() ==> !owns(#[trigger] lights[i], range, face),
        },
    decreases lights.len(),
{
    if lights.len() > 0 {
        owner_is_last(lights.drop_last(), range, face);
        let shorter = lights.drop_last();
        assert forall|i: int| 0 <= i < lights.len() - 1 implies #[trigger] lights[i] == shorter[i] by {}
        if !owns(lights.last(), range, face) {
            assert forall|i: int|
                0 <= i < lights.len() && owns(#[trigger] lights[i], range, face) implies i < lights.len() - 1
                && owns(shorter[i], range, face) by {}
        }
    }
}

/// Number of face transforms that `light` must bring to [`ViewBuilder::build`].
pub fn shadow_faces_needed(light: &GpuLight, shadow_face_count: u32) -> (faces: usize)
    ensures
        faces == faces_needed(*light, face_range(shadow_face_count)),
        light.shadow_index == u32::MAX || light.shadow_index + 6 > shadow_face_count
            || light.shadow_index + 6 > 256 ==> faces == 0,
        light.shadow_index + 6 <= shadow_face_count && light.shadow_index + 6 <= 256 ==> {
            &&& light.light_type == 0 ==> faces == 4
            &&& light.light_type == 1 ==> faces == 6
            &&& light.light_type == 2 ==> faces == 1
            &&& light.light_type > 2 ==> faces == 0
        },
{
    let range: u32 = if shadow_face_count <= MAX_SHADOW_FACES {
        shadow_face_count
    } else {
        MAX_SHADOW_FACES
    };
    if light.shadow_index == NO_SHADOW || range < FACES_PER_CASTER
        || light.shadow_index > range - FACES_PER_CASTER {
        return 0;
    }
    if light.light_type == LIGHT_TYPE_POINT {
        6
    } else if light.light_type == LIGHT_TYPE_SPOT {
        1
    } else if light.light_type == LIGHT_TYPE_DIRECTIONAL {
        4
    } else {
        0
    }
}

/// Builds the per-frame view array (camera + shadow faces) and reports which face
/// matrices changed.
pub struct ViewBuilder {
    /// The camera, then one view per face slot.
    pub views: Vec<GpuView>,
    /// The matrix of every face slot; identity where the slot is inactive.
    pub face_mats: Vec<[u32; 16]>,
    /// Per-face: the slot belongs to an active caster face this frame.
    pub face_active: [bool; FACE_SLOTS],
    /// Per-face: the slot is active and its view-proj matrix differs from the previous
    /// `build()`. An inactive slot holds the identity.
    pub face_changed: [bool; FACE_SLOTS],
    /// The matrix that every face slot held in the previous `build()`.
    pub prev_face_mats: Vec<[u32; 16]>,
}

impl ViewBuilder {
    /// One camera view and one entry per face slot in every table.
    pub open spec fn wf(&self) -> bool {
        &&& self.views@.len() == 1 + FACE_SLOTS
        &&& self.face_mats@.len() == FACE_SLOTS
        &&& self.prev_face_mats@.len() == FACE_SLOTS
    }

    /// Nothing was built: every slot is inactive and holds the identity.
    pub open spec fn is_new(&self) -> bool {
        &&& self.wf()
        &&& forall|v: int| 0 <= v < 1 + FACE_SLOTS ==> #[trigger] self.views@[v] == inactive_view()
        &&& forall|f: int|
            0 <= f < FACE_SLOTS ==> {
                &&& !#[trigger] self.face_active@[f]
                &&& !self.face_changed@[f]
                &&& self.face_mats@[f] == identity()
                &&& self.prev_face_mats@[f] == identity()
            }
    }

    /// What building the view set makes of slot `face`, from the builder `pre`.
    pub open spec fn slot_built(
        &self,
        pre: &ViewBuilder,
        lights: Seq<GpuLight>,
        transforms: Seq<Vec<ViewTransform>>,
        range: int,
        face: int,
    ) -> bool {
        match owner(lights, range, face) {
            Some(light) => {
                let transform = supplied(lights, transforms, light, face);
                &&& self.face_active@[face]
                &&& self.face_mats@[face] == transform.view_proj
                &&& self.face_changed@[face] == !number::equal_all(
                    transform.view_proj@,
                    pre.prev_face_mats@[face]@,
                )
                &&& self.prev_face_mats@[face] == transform.view_proj
                &&& self.views@[1 + face] == view_with(transform, VIEW_FLAG_SHADOW)
            },
            None => {
                &&& !self.face_active@[face]
                &&& self.face_mats@[face] == identity()
                &&& !self.face_changed@[face]
                &&& self.prev_face_mats@[face] == identity()
                &&& self.views@[1 + face] == inactive_view()
            },
        }
    }

    /// Slot `face` is what it was in the builder `pre`.
    spec fn slot_kept(&self, pre: &ViewBuilder, face: int) -> bool {
        &&& self.face_active@[face] == pre.face_active@[face]
        &&& self.face_mats@[face] == pre.face_mats@[face]
        &&& self.face_changed@[face] == pre.face_changed@[face]
        &&& self.prev_face_mats@[face] == pre.prev_face_mats@[face]
        &&& self.views@[1 + face] == pre.views@[1 + face]
    }

    /// `self` is the builder `pre` after the view set was rebuilt. No light owns a slot
    /// outside the face range, so those slots are inactive.
    pub open spec fn built(
        &self,
        pre: &ViewBuilder,
        camera: ViewTransform,
        lights: Seq<GpuLight>,
        transforms: Seq<Vec<ViewTransform>>,
        shadow_face_count: u32,
    ) -> bool {
        &&& self.wf()
        &&& self.views@[0] == view_with(camera, 0)
        &&& forall|face: int|
            #![trigger self.face_active@[face]]
            #![trigger self.views@[1 + face]]
            0 <= face < FACE_SLOTS ==> self.slot_built(
                pre,
                lights,
                transforms,
                face_range(shadow_face_count),
                face,
            )
    }

    /// An empty view set.
    pub fn new() -> (builder: Self)
        ensures
            builder.is_new(),
            builder.views@.len() == 257,
            builder.face_mats@.len() == 256,
            builder.prev_face_mats@.len() == 256,
            forall|f: int, m: int|
                0 <= f < 256 && 0 <= m < 16 ==> #[trigger] builder.prev_face_mats@[f]@[m] == (if m
                    % 5 == 0 {
                    0x3f80_0000u32
                } else {
                    0u32
                }),
            forall|f: int, m: int|
                0 <= f < 256 && 0 <= m < 16 ==> #[trigger] builder.face_mats@[f]@[m] == (if m % 5
                    == 0 {
                    0x3f80_0000u32
                } else {
                    0u32
                }),
            forall|f: int| 0 <= f < 256 ==> !#[trigger] builder.face_active@[f],
            forall|f: int| 0 <= f < 256 ==> !#[trigger] builder.face_changed@[f],
    {
        let mut views: Vec<GpuView> = Vec::new();
        let mut face_mats: Vec<[u32; 16]> = Vec::new();
        let mut prev_face_mats: Vec<[u32; 16]> = Vec::new();
        views.push(GpuView::zeroed_inactive());
        let mut f: usize = 0;
        while f < FACE_SLOTS
            invariant
                f <= FACE_SLOTS,
                views@.len() == 1 + f,
                face_mats@.len() == f,
                prev_face_mats@.len() == f,
                forall|v: int| 0 <= v < 1 + f ==> #[trigger] views@[v] == inactive_view(),
                forall|k: int| 0 <= k < f ==> #[trigger] face_mats@[k] == identity(),
                forall|k: int| 0 <= k < f ==> #[trigger] prev_face_mats@[k] == identity(),
            decreases FACE_SLOTS - f,
        {
            views.push(GpuView::zeroed_inactive());
            face_mats.push(identity_matrix());
            prev_face_mats.push(identity_matrix());
            f += 1;
        }
        ViewBuilder {
            views,
            face_mats,
            face_active: [false; 256],
            face_changed: [false; 256],
            prev_face_mats,
        }
    }

    /// Puts `transform` in slot `face` and marks the slot active.
    fn set_face(&mut self, face: usize, transform: &ViewTransform)
        requires
            old(self).wf(),
            face < FACE_SLOTS,
        ensures
            final(self).wf(),
            final(self).face_mats@ == old(self).face_mats@.update(face as int, transform.view_proj),
            final(self).face_active@ == old(self).face_active@.update(face as int, true),
            final(self).views@ == old(self).views@.update(
                1 + face as int,
                view_with(*transform, VIEW_FLAG_SHADOW),
            ),
            final(self).face_changed == old(self).face_changed,
            final(self).prev_face_mats == old(self).prev_face_mats,
    {
        self.face_mats[face] = transform.view_proj;
        self.face_active[face] = true;
        self.views[1 + face] = GpuView {
            view_proj: transform.view_proj,
            planes: transform.planes,
            flags: VIEW_FLAG_SHADOW,
            _pad: [0, 0, 0],
        };
    }

    /// The slots filled so far hold what the owners among `lights` supply, the others
    /// are inactive.
    spec fn filled(
        &self,
        lights: Seq<GpuLight>,
        transforms: Seq<Vec<ViewTransform>>,
        range: int,
        face: int,
    ) -> bool {
        match owner(lights, range, face) {
            Some(light) => {
                let transform = supplied(lights, transforms, light, face);
                &&& self.face_active@[face]
                &&& self.face_mats@[face] == transform.view_proj
                &&& self.views@[1 + face] == view_with(transform, VIEW_FLAG_SHADOW)
            },
            None => {
                &&& !self.face_active@[face]
                &&& self.face_mats@[face] == identity()
            },
        }
    }

    /// Gives the faces of one light their slots.
    fn place_light(
        &mut self,
        light: &GpuLight,
        faces: &Vec<ViewTransform>,
        shadow_face_count: u32,
        Ghost(lights): Ghost<Seq<GpuLight>>,
        Ghost(transforms): Ghost<Seq<Vec<ViewTransform>>>,
    )
        requires
            old(self).wf(),
            lights.len() > 0,
            transforms.len() >= lights.len(),
            lights.last() == *light,
            transforms[lights.len() - 1] == *faces,
            faces_needed(*light, face_range(shadow_face_count)) <= faces@.len(),
            forall|f: int|
                0 <= f < FACE_SLOTS ==> #[trigger] old(self).filled(
                    lights.drop_last(),
                    transforms,
                    face_range(shadow_face_count),
                    f,
                ),
        ensures
            final(self).wf(),
            forall|f: int|
                0 <= f < FACE_SLOTS ==> #[trigger] final(self).filled(
                    lights,
                    transforms,
                    face_range(shadow_face_count),
                    f,
                ),
            final(self).views@[0] == old(self).views@[0],
            final(self).face_changed == old(self).face_changed,
            final(self).prev_face_mats == old(self).prev_face_mats,
    {
        let ghost range = face_range(shadow_face_count);
        let count: usize = shadow_faces_needed(light, shadow_face_count);
        let base: usize = if count > 0 { light.shadow_index as usize } else { 0 };
        let mut k: usize = 0;
        while k < count
            invariant
                k <= count,
                count == faces_needed(*light, range),
                count > 0 ==> base == light.shadow_index && base + 6 <= range,
                count <= 6,
                count <= faces@.len(),
                range <= FACE_SLOTS,
                self.wf(),
                forall|f: int|
                    0 <= f < FACE_SLOTS ==> #[trigger] self.face_active@[f] == (base <= f < base + k
                        || old(self).face_active@[f]),
                forall|f: int|
                    0 <= f < FACE_SLOTS ==> #[trigger] self.face_mats@[f] == (if base <= f < base + k {
                        faces@[f - base].view_proj
                    } else {
                        old(self).face_mats@[f]
                    }),
                forall|v: int|
                    1 <= v < 1 + FACE_SLOTS ==> #[trigger] self.views@[v] == (if base < v <= base + k {
                        view_with(faces@[v - 1 - base], VIEW_FLAG_SHADOW)
                    } else {
                        old(self).views@[v]
                    }),
                self.views@[0] == old(self).views@[0],
                self.face_changed == old(self).face_changed,
                self.prev_face_mats == old(self).prev_face_mats,
            decreases count - k,
        {
            self.set_face(base + k, &faces[k]);
            k += 1;
        }
        assert forall|f: int| 0 <= f < FACE_SLOTS implies #[trigger] self.filled(
            lights,
            transforms,
            range,
            f,
        ) by {
            assert(old(self).filled(lights.drop_last(), transforms, range, f));
            owner_is_last(lights.drop_last(), range, f);
        }
    }

    /// Rebuilds the view set for this frame.
    ///
    /// * `camera` - the camera's view.
    /// * `lights` - the movable lights. `shadow_index` carries the face base slot.
    /// * `transforms` - for each light the transforms of the faces that it renders, as
    ///   many as [`shadow_faces_needed`] says.
    /// * `shadow_face_count` - active face range. Slots beyond it are inactive.
    ///
    /// Returns `view_count` = 1 + active face range.
    pub fn build(
        &mut self,
        camera: &ViewTransform,
        lights: &[GpuLight],
        transforms: &[Vec<ViewTransform>],
        shadow_face_count: u32,
    ) -> (view_count: u32)
        requires
            old(self).wf(),
            transforms_cover(lights@, transforms@, face_range(shadow_face_count)),
        ensures
            view_count == 1 + face_range(shadow_face_count),
            shadow_face_count <= 256 ==> view_count == 1 + shadow_face_count,
            shadow_face_count > 256 ==> view_count == 257,
            final(self).built(old(self), *camera, lights@, transforms@, shadow_face_count),
    {
        let ghost range = face_range(shadow_face_count);
        let face_count: u32 = if shadow_face_count <= MAX_SHADOW_FACES {
            shadow_face_count
        } else {
            MAX_SHADOW_FACES
        };

        // View 0: camera.
        self.views[0] = GpuView {
            view_proj: camera.view_proj,
            planes: camera.planes,
            flags: 0,
            _pad: [0, 0, 0],
        };

        // Reset all face slots to inactive identity; lights re-activate theirs.
        let mut f: usize = 0;
        while f < FACE_SLOTS
            invariant
                f <= FACE_SLOTS,
                self.wf(),
                self.views@[0] == view_with(*camera, 0),
                self.prev_face_mats == old(self).prev_face_mats,
                forall|k: int| 0 <= k < f ==> !#[trigger] self.face_active@[k],
                forall|k: int| 0 <= k < f ==> !#[trigger] self.face_changed@[k],
                forall|k: int| 0 <= k < f ==> #[trigger] self.face_mats@[k] == identity(),
            decreases FACE_SLOTS - f,
        {
            self.face_active[f] = false;
            self.face_changed[f] = false;
            self.face_mats[f] = identity_matrix();
            f += 1;
        }

        let mut i: usize = 0;
        assert forall|k: int| 0 <= k < FACE_SLOTS implies #[trigger] self.filled(
            lights@.take(0),
            transforms@,
            range,
            k,
        ) by {
        }
        while i < lights.len()
            invariant
                i <= lights@.len(),
                self.wf(),
                range == face_range(shadow_face_count),
                transforms_cover(lights@, transforms@, range),
                self.views@[0] == view_with(*camera, 0),
                self.prev_face_mats == old(self).prev_face_mats,
                forall|k: int| 0 <= k < FACE_SLOTS ==> !#[trigger] self.face_changed@[k],
                forall|k: int|
                    0 <= k < FACE_SLOTS ==> #[trigger] self.filled(
                        lights@.take(i as int),
                        transforms@,
                        range,
                        k,
                    ),
            decreases lights@.len() - i,
        {
            let ghost seen = lights@.take(i + 1);
            assert(seen.drop_last() =~= lights@.take(i as int));
            assert(seen.last() == lights@[i as int]);
            self.place_light(
                &lights[i],
                &transforms[i],
                shadow_face_count,
                Ghost(seen),
                Ghost(transforms@),
            );
            i += 1;
        }
        assert(lights@.take(lights@.len() as int) =~= lights@);

        // Change detection + view emission for every face slot.
        let ghost placed = *self;
        let mut f: usize = 0;
        while f < FACE_SLOTS
            invariant
                f <= FACE_SLOTS,
                self.wf(),
                placed.wf(),
                self.views@[0] == view_with(*camera, 0),
                self.face_active == placed.face_active,
                self.face_mats == placed.face_mats,
                placed.prev_face_mats == old(self).prev_face_mats,
                forall|k: int|
                    0 <= k < FACE_SLOTS ==> #[trigger] placed.filled(lights@, transforms@, range, k),
                forall|k: int| 0 <= k < FACE_SLOTS ==> !#[trigger] placed.face_changed@[k],
                forall|k: int| f <= k < FACE_SLOTS ==> #[trigger] self.slot_kept(&placed, k),
                forall|k: int|
                    0 <= k < f ==> #[trigger] self.slot_built(
                        old(self),
                        lights@,
                        transforms@,
                        range,
                        k,
                    ),
            decreases FACE_SLOTS - f,
        {
            let ghost before = *self;
            assert(placed.filled(lights@, transforms@, range, f as int));
            assert(self.slot_kept(&placed, f as int));
            assert(!placed.face_changed@[f as int]);
            if self.face_active[f] {
                self.face_changed[f] = !number::eq_numbers(
                    &self.face_mats[f],
                    &self.prev_face_mats[f],
                );
            } else {
                self.views[1 + f] = GpuView::zeroed_inactive();
            }
            self.prev_face_mats[f] = self.face_mats[f];
            assert forall|k: int| 0 <= k < f + 1 implies #[trigger] self.slot_built(
                old(self),
                lights@,
                transforms@,
                range,
                k,
            ) by {
                if k < f {
                    assert(before.slot_built(old(self), lights@, transforms@, range, k));
                }
            }
            assert forall|k: int| f < k < FACE_SLOTS implies #[trigger] self.slot_kept(
                &placed,
                k,
            ) by {
                assert(before.slot_kept(&placed, k));
            }
            f += 1;
        }
        assert forall|k: int| 0 <= k < FACE_SLOTS implies self.slot_built(
            old(self),
            lights@,
            transforms@,
            range,
            k,
        ) by {}

        1 + face_count
    }

    /// The view array for upload: `views()[0..view_count]`.
    pub fn views(&self) -> (views: &[GpuView])
        ensures
            views@ == self.views@,
    {
        self.views.as_slice()
    }

    /// Face view-proj matrices for the lighting shader's shadow projection.
    pub fn face_mats(&self) -> (mats: &[[u32; 16]])
        ensures
            mats@ == self.face_mats@,
    {
        self.face_mats.as_slice()
    }
}

/// On an active slot, a change is reported exactly when its matrix is not numerically the
/// one of the build before, be it that of another face or the identity of an inactive
/// slot.
pub proof fn change_means_different_matrix(
    first: &ViewBuilder,
    second: &ViewBuilder,
    third: &ViewBuilder,
    cameras: (ViewTransform, ViewTransform),
    lights: (Seq<GpuLight>, Seq<GpuLight>),
    transforms: (Seq<Vec<ViewTransform>>, Seq<Vec<ViewTransform>>),
    counts: (u32, u32),
    face: int,
)
    requires
        second.built(first, cameras.0, lights.0, transforms.0, counts.0),
        third.built(second, cameras.1, lights.1, transforms.1, counts.1),
        0 <= face < FACE_SLOTS,
        third.face_active@[face],
    ensures
        third.face_changed@[face] == !number::equal_all(
            third.face_mats@[face]@,
            second.face_mats@[face]@,
        ),
{
    let active = second.face_active@[face];
}

/// A re-activated face is reported as changed: a slot that was inactive in one build and
/// is active in the next held the identity, so any other matrix is a change.
pub proof fn reactivated_face_is_changed(
    first: &ViewBuilder,
    second: &ViewBuilder,
    third: &ViewBuilder,
    cameras: (ViewTransform, ViewTransform),
    lights: (Seq<GpuLight>, Seq<GpuLight>),
    transforms: (Seq<Vec<ViewTransform>>, Seq<Vec<ViewTransform>>),
    counts: (u32, u32),
    face: int,
)
    requires
        second.built(first, cameras.0, lights.0, transforms.0, counts.0),
        third.built(second, cameras.1, lights.1, transforms.1, counts.1),
        0 <= face < FACE_SLOTS,
        !second.face_active@[face],
        third.face_active@[face],
    ensures
        third.face_changed@[face] == !number::equal_all(
            third.face_mats@[face]@,
            identity()@,
        ),
{
}

/// Building the same view set twice reports no change the second time. (A matrix that
/// holds a NaN equals nothing, so it counts as changed in every build.)
pub proof fn rebuilding_reports_no_change(
    first: &ViewBuilder,
    second: &ViewBuilder,
    third: &ViewBuilder,
    camera: ViewTransform,
    lights: Seq<GpuLight>,
    transforms: Seq<Vec<ViewTransform>>,
    count: u32,
    face: int,
)
    requires
        second.built(first, camera, lights, transforms, count),
        third.built(second, camera, lights, transforms, count),
        0 <= face < FACE_SLOTS,
        number::all_numbers(second.face_mats@[face]@),
    ensures
        !third.face_changed@[face],
        third.face_active@[face] == second.face_active@[face],
        third.face_mats@[face] == second.face_mats@[face],
        third.views@[1 + face] == second.views@[1 + face],
        third.views@[0] == second.views@[0],
{
    assert(third.face_active@[face] == second.face_active@[face]);
    if third.face_active@[face] {
        number::equality_is_reflexive_without_nan(second.face_mats@[face]@);
    }
}

/// A slot is active exactly when some light owns it, which only slots in range can be.
pub proof fn active_slots_are_owned(
    pre: &ViewBuilder,
    post: &ViewBuilder,
    camera: ViewTransform,
    lights: Seq<GpuLight>,
    transforms: Seq<Vec<ViewTransform>>,
    count: u32,
    face: int,
)
    requires
        post.built(pre, camera, lights, transforms, count),
        0 <= face < FACE_SLOTS,
    ensures
        post.face_active@[face] <==> exists|i: int|
            0 <= i < lights.len() && owns(#[trigger] lights[i], face_range(count), face),
        post.face_active@[face] ==> face < face_range(count),
{
    owner_is_last(lights, face_range(count), face);
    assert(post.face_active@[face] == (owner(lights, face_range(count), face) is Some));
}

/// The camera's view carries no flag. Every face view is flagged as a shadow view, and as
/// inactive exactly when its slot is not active.
pub proof fn view_flags_follow_activity(
    pre: &ViewBuilder,
    post: &ViewBuilder,
    camera: ViewTransform,
    lights: Seq<GpuLight>,
    transforms: Seq<Vec<ViewTransform>>,
    count: u32,
    face: int,
)
    requires
        post.built(pre, camera, lights, transforms, count),
        0 <= face < FACE_SLOTS,
    ensures
        post.views@[0].flags == 0,
        post.views@[1 + face].flags & VIEW_FLAG_SHADOW == VIEW_FLAG_SHADOW,
        (post.views@[1 + face].flags & VIEW_FLAG_INACTIVE == 0) == post.face_active@[face],
{
    assert(1u32 & 1u32 == 1u32 && 1u32 & 2u32 == 0u32) by (bit_vector);
    assert((1u32 | 2u32) & 1u32 == 1u32 && (1u32 | 2u32) & 2u32 == 2u32) by (bit_vector);
    let active = post.face_active@[face];
}

/// A light that owns a slot brings its base slot and its face count along: the faces of
/// a point light are six slots in a row, those of a directional light four, and that of
/// a spot light is its base slot alone.
pub proof fn light_occupies_its_slots(light: GpuLight, range: int, k: int)
    requires
        fits(light, range),
        0 <= k < FACES_PER_CASTER,
    ensures
        light.light_type == LIGHT_TYPE_POINT ==> owns(light, range, light.shadow_index + k),
        light.light_type == LIGHT_TYPE_DIRECTIONAL ==> owns(light, range, light.shadow_index + k)
            == (k < 4),
        light.light_type == LIGHT_TYPE_SPOT ==> owns(light, range, light.shadow_index + k) == (k
            == 0),
        light.shadow_index + k < range,
{
}

impl Default for ViewBuilder {
    fn default() -> (builder: Self)
        ensures
            builder.is_new(),
    {
        ViewBuilder::new()
    }
}

/// Each face of a light goes to a slot of its own: the `k`-th of a light's transforms is
/// what the `k`-th slot from its base slot on holds, as its matrix and in its view. A point
/// light has six faces, a directional light four cascades, a spot light one face. The light
/// must have room for six slots in the face range, and no later light may take the slot.
pub proof fn each_face_gets_its_own_transform(
    pre: &ViewBuilder,
    post: &ViewBuilder,
    camera: ViewTransform,
    lights: Seq<GpuLight>,
    transforms: Seq<Vec<ViewTransform>>,
    count: u32,
    i: int,
    k: int,
)
    requires
        post.built(pre, camera, lights, transforms, count),
        0 <= i < lights.len(),
        lights[i].shadow_index + 6 <= count,
        lights[i].shadow_index + 6 <= 256,
        0 <= k,
        ({
            ||| lights[i].light_type == 1 && k < 6
            ||| lights[i].light_type == 0 && k < 4
            ||| lights[i].light_type == 2 && k < 1
        }),
        forall|j: int|
            i < j < lights.len() ==> {
                let from = (#[trigger] lights[j]).shadow_index;
                let slot = lights[i].shadow_index + k;
                ||| from + 6 > count
                ||| from + 6 > 256
                ||| slot < from
                ||| lights[j].light_type == 1 && slot >= from + 6
                ||| lights[j].light_type == 0 && slot >= from + 4
                ||| lights[j].light_type == 2 && slot >= from + 1
                ||| lights[j].light_type > 2
            },
    ensures
        ({
            let slot = lights[i].shadow_index + k;
            let transform = transforms[i]@[k];
            &&& post.face_active@[slot]
            &&& post.face_mats@[slot] == transform.view_proj
            &&& post.prev_face_mats@[slot] == transform.view_proj
            &&& post.views@[1 + slot].view_proj == transform.view_proj
            &&& post.views@[1 + slot].planes == transform.planes
            &&& post.views@[1 + slot].flags == 1
            &&& post.views@[1 + slot]._pad@ == seq![0u32, 0u32, 0u32]
            &&& post.face_changed@[slot] == !number::equal_all(
                transform.view_proj@,
                pre.prev_face_mats@[slot]@,
            )
        }),
{
    let range = face_range(count);
    let slot = lights[i].shadow_index + k;
    owner_is_last(lights, range, slot);
    assert(owns(lights[i], range, slot));
    let light = owner(lights, range, slot)->0;
    if i < light {
        assert(owns(lights[light], range, slot));
    }
    assert(light == i);
    let active = post.face_active@[slot];
    assert(post.views@[1 + slot]._pad@ =~= seq![0u32, 0u32, 0u32]);
}

/// A slot that no light takes is inactive: it holds the identity, its view has zero planes
/// and is flagged as a shadow view and as inactive, and it is not reported as changed. A
/// light takes slots only if it casts shadows and all its six slots lie in the face range.
pub proof fn untaken_slots_hold_the_identity(
    pre: &ViewBuilder,
    post: &ViewBuilder,
    camera: ViewTransform,
    lights: Seq<GpuLight>,
    transforms: Seq<Vec<ViewTransform>>,
    count: u32,
    slot: int,
    m: int,
)
    requires
        post.built(pre, camera, lights, transforms, count),
        0 <= slot < 256,
        0 <= m < 16,
        forall|j: int|
            0 <= j < lights.len() ==> {
                let from = (#[trigger] lights[j]).shadow_index;
                ||| from + 6 > count
                ||| from + 6 > 256
                ||| slot < from
                ||| lights[j].light_type == 1 && slot >= from + 6
                ||| lights[j].light_type == 0 && slot >= from + 4
                ||| lights[j].light_type == 2 && slot >= from + 1
                ||| lights[j].light_type > 2
            },
    ensures
        !post.face_active@[slot],
        !post.face_changed@[slot],
        post.face_mats@[slot]@[m] == (if m % 5 == 0 {
            0x3f80_0000u32
        } else {
            0u32
        }),
        post.prev_face_mats@[slot] == post.face_mats@[slot],
        post.views@[1 + slot].view_proj == post.face_mats@[slot],
        post.views@[1 + slot].flags == 3,
        forall|p: int, c: int|
            0 <= p < 6 && 0 <= c < 4 ==> #[trigger] post.views@[1 + slot].planes@[p]@[c] == 0,
{
    let range = face_range(count);
    owner_is_last(lights, range, slot);
    if owner(lights, range, slot) is Some {
        assert(owns(lights[owner(lights, range, slot)->0], range, slot));
    }
    let active = post.face_active@[slot];
    assert(1u32 | 2u32 == 3u32) by (bit_vector);
}

/// View 0 shows the camera as it was given, without any flag.
pub proof fn camera_is_the_first_view(
    pre: &ViewBuilder,
    post: &ViewBuilder,
    camera: ViewTransform,
    lights: Seq<GpuLight>,
    transforms: Seq<Vec<ViewTransform>>,
    count: u32,
)
    requires
        post.built(pre, camera, lights, transforms, count),
    ensures
        post.views@.len() == 257,
        post.face_mats@.len() == 256,
        post.views@[0].view_proj == camera.view_proj,
        post.views@[0].planes == camera.planes,
        post.views@[0].flags == 0,
        post.views@[0]._pad@ == seq![0u32, 0u32, 0u32],
{
    assert(post.views@[0]._pad@ =~= seq![0u32, 0u32, 0u32]);
}

/// The transforms of a frame suffice when every light brings those of its type: six of a
/// point light, four of a directional light, one of a spot light. Lights without room in
/// the face range need none.
pub proof fn transforms_by_type_suffice(
    lights: Seq<GpuLight>,
    transforms: Seq<Vec<ViewTransform>>,
    count: u32,
)
    requires
        transforms.len() == lights.len(),
        forall|i: int|
            0 <= i < lights.len() ==> {
                let light = #[trigger] lights[i];
                ||| light.shadow_index + 6 > count
                ||| light.shadow_index + 6 > 256
                ||| light.light_type == 1 && transforms[i]@.len() >= 6
                ||| light.light_type == 0 && transforms[i]@.len() >= 4
                ||| light.light_type == 2 && transforms[i]@.len() >= 1
                ||| light.light_type > 2
            },
    ensures
        transforms_cover(lights, transforms, face_range(count)),
        count <= 256 ==> face_range(count) == count,
        count > 256 ==> face_range(count) == 256,
{
}

} // verus!
