//! The fixed-point length unit and its saturating arithmetic.
//!
//! Every length is a count of app units, sixty to the pixel, held in an
//! `i32`. The arithmetic is that of `app_units::Au`: sums, differences and
//! products are pinned to the range from [`MIN_AU`] to [`MAX_AU`].

use app_units::Au;
use vstd::prelude::*;

verus! {

/// App units in one pixel.
pub const AU_PER_PX: i32 = 60;

/// The largest length the unit can hold.
pub const MAX_AU: i32 = 1_073_741_823;

/// The smallest length the unit can hold.
pub const MIN_AU: i32 = -1_073_741_823;

/// Whether `v` is a length the unit can hold.
pub open spec fn in_range(v: int) -> bool {
    MIN_AU <= v <= MAX_AU
}

/// `v` pinned to the unit's range.
pub open spec fn clamp(v: int) -> int {
    if v > MAX_AU {
        MAX_AU as int
    } else if v < MIN_AU {
        MIN_AU as int
    } else {
        v
    }
}

/// The quotient of `a` by `b`, rounded toward zero.
pub open spec fn div_toward_zero(a: int, b: int) -> int
    recommends
        b != 0,
{
    if a >= 0 {
        a / b
    } else {
        -((-a) / b)
    }
}

/// A quotient rounded toward zero is no farther from zero than the dividend.
pub proof fn lemma_div_toward_zero_bounded(a: int, b: int)
    requires
        b != 0,
    ensures
        a >= 0 ==> -a <= div_toward_zero(a, b) <= a,
        a < 0 ==> a <= div_toward_zero(a, b) <= -a,
{
    if a >= 0 {
        assert(-a <= a / b <= a) by (nonlinear_arith)
            requires
                a >= 0,
                b != 0,
        ;
    } else {
        let c = -a;
        assert(-c <= c / b <= c) by (nonlinear_arith)
            requires
                c >= 0,
                b != 0,
        ;
    }
}

/// The saturating sum of two lengths.
pub open spec fn plus(a: i32, b: i32) -> i32 {
    clamp(a + b) as i32
}

/// The saturating difference of two lengths.
pub open spec fn minus(a: i32, b: i32) -> i32 {
    clamp(a - b) as i32
}

/// The saturating product of a length and a count.
pub open spec fn times(a: i32, n: i32) -> i32 {
    clamp(a * n) as i32
}

/// The whole pixels in a length, rounded toward zero.
pub open spec fn whole_px(a: i32) -> i32 {
    div_toward_zero(a as int, AU_PER_PX as int) as i32
}

/// Tests whether `v` is a length the unit can hold.
pub fn is_in_range(v: i32) -> (r: bool)
    ensures
        r == in_range(v as int),
{
    MIN_AU <= v && v <= MAX_AU
}

/// Pins an exact sum to the unit's range.
pub fn saturate(v: i64) -> (r: i32)
    ensures
        r == clamp(v as int),
{
    if v > MAX_AU as i64 {
        MAX_AU
    } else if v < MIN_AU as i64 {
        MIN_AU
    } else {
        v as i32
    }
}

/// `Au + Au` of app_units: the sum of the two lengths, pinned to the unit's
/// range. The crate adds the raw values before it pins the sum, so both
/// operands have to be in range themselves.
#[verifier::external_body]
pub(crate) fn au_add(a: i32, b: i32) -> (r: i32)
    requires
        in_range(a as int),
        in_range(b as int),
    ensures
        r == plus(a, b),
{
    (Au(a) + Au(b)).0
}

/// `Au - Au` of app_units: the difference of the two lengths, pinned to the
/// unit's range. The crate subtracts the raw values before it pins the
/// difference, so both operands have to be in range themselves.
#[verifier::external_body]
pub(crate) fn au_sub(a: i32, b: i32) -> (r: i32)
    requires
        in_range(a as int),
        in_range(b as int),
    ensures
        r == minus(a, b),
{
    (Au(a) - Au(b)).0
}

/// `Au * i32` of app_units: the length taken `n` times, pinned to the unit's
/// range. Where the raw product overflows, the crate picks the bound by the
/// signs of the factors, so every pair of factors is allowed.
#[verifier::external_body]
pub(crate) fn au_scale(a: i32, n: i32) -> (r: i32)
    ensures
        r == times(a, n),
{
    (Au(a) * n).0
}

/// `Au::to_px` of app_units: the raw value divided by sixty with Rust's
/// integer division, which rounds toward zero.
#[verifier::external_body]
pub(crate) fn au_to_px(a: i32) -> (r: i32)
    ensures
        r == whole_px(a),
{
    Au(a).to_px()
}

} // verus!
