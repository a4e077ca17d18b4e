//! Single-precision numbers as bit patterns.
//!
//! A `u32` word stands for the IEEE-754 binary32 number with that bit pattern.
//! Comparing two numbers is not comparing their patterns: a NaN differs from
//! everything, itself included, and the two zeros are equal.

use vstd::arithmetic::power2::{
    lemma2_to64, lemma_pow2_adds, lemma_pow2_pos, lemma_pow2_strictly_increases, pow2,
};
use vstd::prelude::*;

verus! {

/// Bit pattern of `0.0`.
pub const ZERO: u32 = 0;

/// Bit pattern of `1.0`.
pub const ONE: u32 = 0x3f80_0000;

/// The pattern without its sign bit.
pub open spec fn magnitude(bits: u32) -> int {
    bits as int % 0x8000_0000
}

/// A NaN has the largest exponent and a fraction that is not zero.
pub open spec fn is_nan(bits: u32) -> bool {
    magnitude(bits) > 0x7f80_0000
}

/// Positive or negative zero.
pub open spec fn is_zero(bits: u32) -> bool {
    magnitude(bits) == 0
}

/// IEEE-754 equality of the two numbers.
pub open spec fn equal_numbers(a: u32, b: u32) -> bool {
    &&& !is_nan(a)
    &&& !is_nan(b)
    &&& a == b || is_zero(a) && is_zero(b)
}

/// IEEE-754 equality, element by element.
pub open spec fn equal_all(a: Seq<u32>, b: Seq<u32>) -> bool {
    &&& a.len() == b.len()
    &&& forall|i: int| 0 <= i < a.len() ==> equal_numbers(#[trigger] a[i], b[i])
}

/// IEEE-754 equality of the first three elements, those of a vector.
pub open spec fn equal_xyz(a: Seq<u32>, b: Seq<u32>) -> bool {
    &&& equal_numbers(a[0], b[0])
    &&& equal_numbers(a[1], b[1])
    &&& equal_numbers(a[2], b[2])
}

/// The number is exactly `n / 2^k`: either both are zero, or the pattern is that of a
/// positive normal number `significand * 2^(exponent - 150)` with that value.
pub open spec fn denotes(bits: u32, n: nat, k: nat) -> bool {
    if n == 0 {
        bits == ZERO
    } else {
        let exponent = bits as nat / 0x80_0000;
        let significand = 0x80_0000 + bits as nat % 0x80_0000;
        &&& 1 <= exponent <= 254
        &&& significand * pow2(exponent + k) == n * pow2(150)
    }
}

/// None of the elements is a NaN.
pub open spec fn all_numbers(a: Seq<u32>) -> bool {
    forall|i: int| 0 <= i < a.len() ==> !is_nan(#[trigger] a[i])
}

/// Whether two bit patterns denote equal numbers.
pub fn eq_number(a: u32, b: u32) -> (same: bool)
    ensures
        same == equal_numbers(a, b),
{
    let mag_a: u32 = a % 0x8000_0000u32;
    let mag_b: u32 = b % 0x8000_0000u32;
    mag_a <= 0x7f80_0000 && mag_b <= 0x7f80_0000 && (a == b || mag_a == 0 && mag_b == 0)
}

/// Whether two arrays of bit patterns denote equal numbers, element by element.
pub fn eq_numbers<const N: usize>(a: &[u32; N], b: &[u32; N]) -> (same: bool)
    ensures
        same == equal_all(a@, b@),
{
    let mut i: usize = 0;
    while i < N
        invariant
            i <= N,
            forall|j: int| 0 <= j < i ==> equal_numbers(#[trigger] a@[j], b@[j]),
        decreases N - i,
    {
        if !eq_number(a[i], b[i]) {
            assert(!equal_numbers(a@[i as int], b@[i as int]));
            return false;
        }
        i += 1;
    }
    true
}

/// Whether the first three elements denote equal numbers.
pub fn eq_xyz(a: &[u32; 4], b: &[u32; 4]) -> (same: bool)
    ensures
        same == equal_xyz(a@, b@),
{
    eq_number(a[0], b[0]) && eq_number(a[1], b[1]) && eq_number(a[2], b[2])
}

/// Equality of numbers is symmetric and transitive.
pub proof fn equality_is_partial_equivalence(a: Seq<u32>, b: Seq<u32>, c: Seq<u32>)
    ensures
        equal_all(a, b) == equal_all(b, a),
        equal_all(a, b) && equal_all(b, c) ==> equal_all(a, c),
{
    if equal_all(a, b) {
        assert forall|i: int| 0 <= i < b.len() implies equal_numbers(#[trigger] b[i], a[i]) by {
            assert(equal_numbers(a[i], b[i]));
        }
    }
    if equal_all(b, a) {
        assert forall|i: int| 0 <= i < a.len() implies equal_numbers(#[trigger] a[i], b[i]) by {
            assert(equal_numbers(b[i], a[i]));
        }
    }
    if equal_all(a, b) && equal_all(b, c) {
        assert forall|i: int| 0 <= i < a.len() implies equal_numbers(#[trigger] a[i], c[i]) by {
            assert(equal_numbers(a[i], b[i]));
            assert(equal_numbers(b[i], c[i]));
        }
    }
}

/// A sequence equals itself exactly when it holds no NaN.
pub proof fn equality_is_reflexive_without_nan(a: Seq<u32>)
    ensures
        equal_all(a, a) == all_numbers(a),
{
    if equal_all(a, a) {
        assert forall|i: int| 0 <= i < a.len() implies !is_nan(#[trigger] a[i]) by {
            assert(equal_numbers(a[i], a[i]));
        }
    }
}

/// Two patterns denote equal numbers exactly when neither has an exponent of all ones with
/// a fraction, and they are the same or both the pattern of a zero.
pub proof fn equality_goes_by_value(a: u32, b: u32)
    ensures
        0x7f80_0000 < a < 0x8000_0000 || 0xff80_0000 < a ==> !equal_numbers(a, b),
        0x7f80_0000 < b < 0x8000_0000 || 0xff80_0000 < b ==> !equal_numbers(a, b),
        a <= 0x7f80_0000 || 0x8000_0000 <= a <= 0xff80_0000 ==> equal_numbers(a, a),
        (a == 0 || a == 0x8000_0000) && (b == 0 || b == 0x8000_0000) ==> equal_numbers(a, b),
        a != b && !(a == 0 || a == 0x8000_0000) ==> !equal_numbers(a, b),
        a != b && !(b == 0 || b == 0x8000_0000) ==> !equal_numbers(a, b),
        equal_numbers(a, b) == equal_numbers(b, a),
{
}

/// Lists of numbers are equal exactly when they have the same length and differ in no
/// element; vectors, when they differ in none of the first three.
pub proof fn equality_goes_by_element(a: Seq<u32>, b: Seq<u32>)
    ensures
        equal_all(a, b) <==> a.len() == b.len() && !exists|i: int|
            0 <= i < a.len() && !equal_numbers(#[trigger] a[i], b[i]),
        equal_xyz(a, b) <==> !exists|i: int| 0 <= i < 3 && !equal_numbers(#[trigger] a[i], b[i]),
{
    if !equal_xyz(a, b) {
        assert(!equal_numbers(a[0], b[0]) || !equal_numbers(a[1], b[1]) || !equal_numbers(
            a[2],
            b[2],
        ));
    }
}

/// A pattern denotes a fraction in one way only: the sign bit is clear, and two patterns of
/// one fraction are the same.
pub proof fn a_fraction_has_one_pattern(a: u32, b: u32, n: nat, k: nat)
    requires
        denotes(a, n, k),
        denotes(b, n, k),
    ensures
        a == b,
        a < 0x8000_0000,
{
    if n > 0 {
        let (ea, eb) = (a as nat / 0x80_0000, b as nat / 0x80_0000);
        let (sa, sb) = (0x80_0000 + a as nat % 0x80_0000, 0x80_0000 + b as nat % 0x80_0000);
        if ea < eb {
            larger_exponents_differ(sa, sb, ea + k, eb + k);
        } else if eb < ea {
            larger_exponents_differ(sb, sa, eb + k, ea + k);
        } else {
            let p = pow2(ea + k);
            lemma_pow2_pos(ea + k);
            assert(sa == sb) by (nonlinear_arith)
                requires
                    sa * p == sb * p,
                    p > 0,
            ;
        }
    }
}

/// Significands of one binade cannot make up for a larger exponent.
proof fn larger_exponents_differ(sa: nat, sb: nat, ea: nat, eb: nat)
    requires
        sa < 0x100_0000,
        0x80_0000 <= sb,
        ea < eb,
    ensures
        sa * pow2(ea) != sb * pow2(eb),
{
    lemma_pow2_pos(ea);
    lemma_pow2_adds(ea, 1);
    lemma2_to64();
    if ea + 1 < eb {
        lemma_pow2_strictly_increases(ea + 1, eb);
    }
    let (p, q) = (pow2(ea), pow2(eb));
    assert(sa * p < sb * q) by (nonlinear_arith)
        requires
            sa < 0x100_0000,
            0x80_0000 <= sb,
            p > 0,
            2 * p <= q,
    ;
}

} // verus!
