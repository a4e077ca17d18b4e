//! Shadow atlas tile math.
//!
//! The atlas is a single 2D depth texture of `ATLAS_RES` squared, divided into
//! `ATLAS_TILES_PER_ROW` x `ATLAS_TILES_PER_ROW` tiles of `TILE_RES` squared. Face
//! `f` occupies tile `(f % ATLAS_TILES_PER_ROW, f / ATLAS_TILES_PER_ROW)`.

use vstd::arithmetic::power2::{lemma2_to64, lemma_pow2_adds, pow2};
use vstd::prelude::*;

use crate::number;
use crate::{ATLAS_RES, ATLAS_TILES_PER_ROW, MAX_SHADOW_FACES, TILE_RES};

verus! {

/// The atlas has `2^4` tiles per row, so tile coordinates are multiples of `1 / 2^4`.
pub open spec fn tile_fraction_bits() -> nat {
    4
}

/// Column of a face's tile.
pub open spec fn tile_column(face: int) -> int {
    face % (ATLAS_TILES_PER_ROW as int)
}

/// Row of a face's tile.
pub open spec fn tile_row(face: int) -> int {
    face / (ATLAS_TILES_PER_ROW as int)
}

/// The texel `(x, y)` of the atlas belongs to the face's tile.
pub open spec fn in_tile(face: int, x: int, y: int) -> bool {
    &&& tile_column(face) * TILE_RES <= x < (tile_column(face) + 1) * TILE_RES
    &&& tile_row(face) * TILE_RES <= y < (tile_row(face) + 1) * TILE_RES
}

/// The texel `(x, y)` lies in the rectangle `(x0, y0, w, h)`.
pub open spec fn in_viewport(viewport: (u32, u32, u32, u32), x: int, y: int) -> bool {
    &&& viewport.0 <= x < viewport.0 + viewport.2
    &&& viewport.1 <= y < viewport.1 + viewport.3
}

/// Pixel-space viewport `(x, y, w, h)` of a face's tile, for the viewport and the
/// scissor rectangle of a render pass.
pub open spec fn viewport_of(face: int) -> (int, int, int, int) {
    (
        tile_column(face) * TILE_RES,
        tile_row(face) * TILE_RES,
        TILE_RES as int,
        TILE_RES as int,
    )
}

/// Pixel-space viewport `(x, y, w, h)` of a face's tile.
pub fn face_viewport(face: u32) -> (viewport: (u32, u32, u32, u32))
    requires
        face < MAX_SHADOW_FACES,
    ensures
        viewport.0 == viewport_of(face as int).0,
        viewport.1 == viewport_of(face as int).1,
        viewport.2 == viewport_of(face as int).2,
        viewport.3 == viewport_of(face as int).3,
        viewport.0 == face % 16 * 512,
        viewport.1 == face / 16 * 512,
        viewport.2 == 512,
        viewport.3 == 512,
        forall|x: int, y: int| in_viewport(viewport, x, y) == in_tile(face as int, x, y),
{
    let tx: u32 = face % ATLAS_TILES_PER_ROW;
    let ty: u32 = face / ATLAS_TILES_PER_ROW;
    (tx * TILE_RES, ty * TILE_RES, TILE_RES, TILE_RES)
}

/// Bit pattern of `t / ATLAS_TILES_PER_ROW`.
fn tile_fraction(t: u32) -> (bits: u32)
    requires
        t < ATLAS_TILES_PER_ROW,
    ensures
        number::denotes(bits, t as nat, tile_fraction_bits()),
{
    let bits: u32 = if t == 0 {
        number::ZERO
    } else if t < 2 {
        0x3d80_0000
    } else if t < 4 {
        0x3e00_0000 + (t - 2) * 0x40_0000
    } else if t < 8 {
        0x3e80_0000 + (t - 4) * 0x20_0000
    } else {
        0x3f00_0000 + (t - 8) * 0x10_0000
    };
    proof {
        fraction_scales();
        if 0 < t {
            let exponent = bits as nat / 0x80_0000;
            let significand = 0x80_0000 + bits as nat % 0x80_0000;
            let unit: nat = if t < 2 {
                0x80_0000
            } else if t < 4 {
                0x40_0000
            } else if t < 8 {
                0x20_0000
            } else {
                0x10_0000
            };
            let scale = pow2(exponent + 4);
            assert(significand == t as nat * unit);
            assert(unit * scale == pow2(150));
            assert(significand * scale == t as nat * (unit * scale)) by (nonlinear_arith)
                requires
                    significand == t as nat * unit,
            ;
        }
    }
    bits
}

/// Powers of two that separate the numbers in `[1/16, 1)` from `2^150`.
proof fn fraction_scales()
    ensures
        0x80_0000 * pow2(127) == pow2(150),
        0x40_0000 * pow2(128) == pow2(150),
        0x20_0000 * pow2(129) == pow2(150),
        0x10_0000 * pow2(130) == pow2(150),
{
    lemma_pow2_adds(23, 127);
    lemma_pow2_adds(22, 128);
    lemma_pow2_adds(21, 129);
    lemma_pow2_adds(20, 130);
    lemma2_to64();
}

/// UV transform mapping in-face UV to atlas UV:
/// `atlas_uv = face_uv * [sx, sy] + [ox, oy]`, returned as the bit patterns of
/// `[sx, sy, ox, oy]`. All four are exact: a tile is one `ATLAS_TILES_PER_ROW`-th of
/// the atlas, and its origin is as many of them along each axis as there are tiles
/// before it.
pub fn face_uv_transform(face: u32) -> (transform: [u32; 4])
    requires
        face < MAX_SHADOW_FACES,
    ensures
        number::denotes(transform@[0], 1, tile_fraction_bits()),
        number::denotes(transform@[1], 1, tile_fraction_bits()),
        number::denotes(transform@[2], tile_column(face as int) as nat, tile_fraction_bits()),
        number::denotes(transform@[3], tile_row(face as int) as nat, tile_fraction_bits()),
{
    let tx: u32 = face % ATLAS_TILES_PER_ROW;
    let ty: u32 = face / ATLAS_TILES_PER_ROW;
    let s: u32 = tile_fraction(1);
    [s, s, tile_fraction(tx), tile_fraction(ty)]
}

/// No tile leaves the atlas.
pub proof fn tiles_never_escape(face: int, x: int, y: int)
    requires
        0 <= face < MAX_SHADOW_FACES,
        in_tile(face, x, y),
    ensures
        0 <= x < ATLAS_RES,
        0 <= y < ATLAS_RES,
{
}

/// No two tiles share a texel.
pub proof fn tiles_never_overlap(face: int, other: int, x: int, y: int)
    requires
        0 <= face < MAX_SHADOW_FACES,
        0 <= other < MAX_SHADOW_FACES,
        in_tile(face, x, y),
        in_tile(other, x, y),
    ensures
        face == other,
{
}

/// Every texel of the atlas belongs to the tile of some face.
pub proof fn tiles_cover_the_atlas(x: int, y: int) -> (face: int)
    requires
        0 <= x < ATLAS_RES,
        0 <= y < ATLAS_RES,
    ensures
        0 <= face < MAX_SHADOW_FACES,
        in_tile(face, x, y),
{
    let column = x / (TILE_RES as int);
    let row = y / (TILE_RES as int);
    row * ATLAS_TILES_PER_ROW + column
}

/// The UV transform and the viewport agree. With the transform's numbers as
/// `denotes` gives them (scale `1 / 2^k`, origin `tile / 2^k`), the in-face point
/// `(u / TILE_RES, v / TILE_RES)` goes to the atlas texel that the viewport puts it on,
/// and stays inside the tile. Both sides are freed of their denominators.
pub proof fn uv_transform_matches_viewport(face: int, u: int, v: int)
    requires
        0 <= face < MAX_SHADOW_FACES,
        0 <= u < TILE_RES,
        0 <= v < TILE_RES,
    ensures
        ATLAS_RES == TILE_RES * pow2(tile_fraction_bits()),
        ({
            let (x, y) = (viewport_of(face).0 + u, viewport_of(face).1 + v);
            let unit = TILE_RES * pow2(tile_fraction_bits());
            &&& x * unit == (u + TILE_RES * tile_column(face)) * ATLAS_RES
            &&& y * unit == (v + TILE_RES * tile_row(face)) * ATLAS_RES
            &&& in_tile(face, x, y)
        }),
{
    lemma2_to64();
}

/// Faces fill the atlas row by row: the tile to the right of a face is that of the next
/// one, the tile below it that of the one 16 further on, and face 0 is in the corner.
pub proof fn faces_run_row_by_row(face: int)
    requires
        0 <= face < MAX_SHADOW_FACES,
    ensures
        viewport_of(0) == (0int, 0int, 512int, 512int),
        face % 16 < 15 ==> viewport_of(face + 1).0 == viewport_of(face).0 + 512 && viewport_of(
            face + 1,
        ).1 == viewport_of(face).1,
        face + 16 < MAX_SHADOW_FACES ==> viewport_of(face + 16).0 == viewport_of(face).0
            && viewport_of(face + 16).1 == viewport_of(face).1 + 512,
        tile_column(face) == face % 16,
        tile_row(face) == face / 16,
        tile_fraction_bits() == 4,
{
}

/// A tile is the square of 512 texels from its viewport's corner on.
pub proof fn tiles_are_their_viewports(face: int, x: int, y: int)
    requires
        0 <= face < MAX_SHADOW_FACES,
    ensures
        in_tile(face, x, y) <==> {
            &&& 0 <= x - face % 16 * 512 < 512
            &&& 0 <= y - face / 16 * 512 < 512
        },
{
}

} // verus!
