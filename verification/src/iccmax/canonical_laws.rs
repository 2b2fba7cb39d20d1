//! What holds of the recognition of transfer characteristics and primaries.
//!
//! A curve is held against a reference by its differences at 33 points. What is said here is
//! said of these differences one by one.

use crate::float_bits::{f32_is_infinite, f32_is_nan, f32_value, f64_is_nan, f64_value};
use crate::iccmax::canonical::{
    candidate, close_everywhere, fits_best, largest, primaries_of, worst, CicpColorPrimaries,
    TransferCharacteristics, TRANSFER_TOLERANCE,
};
use crate::iccmax::cept::Chromaticity;
use crate::iccmax::laws::{
    lemma_primaries_exclude_one_another, lemma_tolerance_is_three_hundred_units,
};
use vstd::arithmetic::power2::{lemma_pow2_pos, pow2};
use vstd::prelude::*;

verus! {

/// The largest of the differences is not below any of them that is a number, and it is one of
/// them or nothing at all.
pub proof fn lemma_largest_bounds_every_difference(d: Seq<u64>, n: nat)
    ensures
        forall|i: int|
            0 <= i < n && !f64_is_nan(#[trigger] d[i]) ==> f64_value(d[i]) <= largest(d, n),
        largest(d, n) >= 0,
        largest(d, n) == 0 || exists|i: int|
            0 <= i < n && !f64_is_nan(#[trigger] d[i]) && f64_value(d[i]) == largest(d, n),
    decreases n,
{
    if n > 0 {
        lemma_largest_bounds_every_difference(d, (n - 1) as nat);
    }
}

/// The tolerance is above nothing at all.
proof fn lemma_tolerance_is_positive()
    ensures
        f64_value(TRANSFER_TOLERANCE) > 0,
{
    lemma_tolerance_is_three_hundred_units();
    lemma_pow2_pos(1014);
    let q = pow2(1014) as int;
    assert(600 * (q * 0x1000_0000_0000_0000) - 65535 * q > 0) by (nonlinear_arith)
        requires
            q > 0,
    ;
}

/// The candidate that fits best is close everywhere: each of its 33 differences that is a number
/// is below the tolerance.
pub proof fn lemma_recognised_curve_is_close_everywhere(diffs: Seq<[u64; 33]>, k: int)
    requires
        fits_best(diffs, k),
    ensures
        0 <= k < 7,
        forall|i: int|
            0 <= i < 33 && !f64_is_nan(#[trigger] diffs[k]@[i]) ==> f64_value(diffs[k]@[i])
                < f64_value(TRANSFER_TOLERANCE),
{
    lemma_largest_bounds_every_difference(diffs[k]@, 33);
}

/// No other candidate is closer than the one that fits best: to every difference of the latter
/// that is above zero each other candidate has one that is at least as large. A candidate that is
/// tried before has one that is above zero, and above every difference of the one that fits best.
pub proof fn lemma_no_candidate_is_closer(diffs: Seq<[u64; 33]>, k: int, j: int, i: int)
    requires
        fits_best(diffs, k),
        0 <= j < 7,
        0 <= i < 33,
    ensures
        !f64_is_nan(diffs[k]@[i]) && f64_value(diffs[k]@[i]) > 0 ==> exists|m: int|
            0 <= m < 33 && !f64_is_nan(#[trigger] diffs[j]@[m]) && f64_value(diffs[k]@[i])
                <= f64_value(diffs[j]@[m]),
        j < k ==> exists|m: int|
            0 <= m < 33 && !f64_is_nan(#[trigger] diffs[j]@[m]) && f64_value(diffs[j]@[m]) > 0 && (
            !f64_is_nan(diffs[k]@[i]) ==> f64_value(diffs[k]@[i]) < f64_value(diffs[j]@[m])),
{
    lemma_largest_bounds_every_difference(diffs[k]@, 33);
    lemma_largest_bounds_every_difference(diffs[j]@, 33);
    assert(worst(diffs, k) <= worst(diffs, j));
    if j < k {
        assert(worst(diffs, k) < worst(diffs, j));
    }
}

/// The largest difference of a candidate is below the tolerance exactly where each of its 33
/// differences that is a number is.
pub proof fn lemma_close_is_close_everywhere(diffs: Seq<[u64; 33]>, k: int)
    ensures
        worst(diffs, k) < f64_value(TRANSFER_TOLERANCE) <==> forall|i: int|
            0 <= i < 33 && !f64_is_nan(#[trigger] diffs[k]@[i]) ==> f64_value(diffs[k]@[i])
                < f64_value(TRANSFER_TOLERANCE),
        worst(diffs, k) < f64_value(TRANSFER_TOLERANCE) <==> close_everywhere(diffs[k]),
{
    lemma_tolerance_is_positive();
    lemma_largest_bounds_every_difference(diffs[k]@, 33);
}

/// A candidate that is passed over is far somewhere: one of its differences is not below the
/// tolerance.
pub proof fn lemma_far_candidate_is_far_somewhere(diffs: Seq<[u64; 33]>, k: int)
    requires
        worst(diffs, k) >= f64_value(TRANSFER_TOLERANCE),
    ensures
        exists|i: int|
            0 <= i < 33 && !f64_is_nan(#[trigger] diffs[k]@[i]) && f64_value(diffs[k]@[i])
                >= f64_value(TRANSFER_TOLERANCE),
{
    lemma_tolerance_is_positive();
    lemma_largest_bounds_every_difference(diffs[k]@, 33);
}

/// A candidate whose differences, as far as they are numbers, are all below the tolerance is
/// recognised where each of the others has one that is not.
pub proof fn lemma_only_close_candidate_is_recognised(
    diffs: Seq<[u64; 33]>,
    k: int,
    far: spec_fn(int) -> int,
)
    requires
        0 <= k < 7,
        forall|i: int|
            0 <= i < 33 && !f64_is_nan(#[trigger] diffs[k]@[i]) ==> f64_value(diffs[k]@[i])
                < f64_value(TRANSFER_TOLERANCE),
        forall|j: int|
            0 <= j < 7 && j != k ==> 0 <= #[trigger] far(j) < 33 && !f64_is_nan(diffs[j]@[far(j)])
                && f64_value(diffs[j]@[far(j)]) >= f64_value(TRANSFER_TOLERANCE),
    ensures
        fits_best(diffs, k),
        forall|j: int| #[trigger] fits_best(diffs, j) ==> j == k,
{
    lemma_tolerance_is_positive();
    lemma_largest_bounds_every_difference(diffs[k]@, 33);
    assert(worst(diffs, k) < f64_value(TRANSFER_TOLERANCE));
    assert forall|j: int| 0 <= j < 7 && j != k implies f64_value(TRANSFER_TOLERANCE)
        <= #[trigger] worst(diffs, j) by {
        lemma_largest_bounds_every_difference(diffs[j]@, 33);
        assert(!f64_is_nan(diffs[j]@[far(j)]));
    }
}

/// Where no candidate is close everywhere, none is recognised; where one is, one is.
pub proof fn lemma_some_candidate_is_recognised(diffs: Seq<[u64; 33]>)
    ensures
        (exists|k: int| fits_best(diffs, k)) <==> exists|k: int|
            0 <= k < 7 && #[trigger] worst(diffs, k) < f64_value(TRANSFER_TOLERANCE),
{
    if exists|k: int| fits_best(diffs, k) {
        let k = choose|k: int| fits_best(diffs, k);
        assert(0 <= k < 7 && worst(diffs, k) < f64_value(TRANSFER_TOLERANCE));
    }
    if exists|k: int| 0 <= k < 7 && #[trigger] worst(diffs, k) < f64_value(TRANSFER_TOLERANCE) {
        let k = choose|k: int|
            0 <= k < 7 && #[trigger] worst(diffs, k) < f64_value(TRANSFER_TOLERANCE);
        let best = first_least(diffs, 7);
        lemma_first_least(diffs, 7);
        assert(worst(diffs, best) <= worst(diffs, k));
        assert(fits_best(diffs, best));
    }
}

/// The first of `n` candidates whose largest difference is the least.
spec fn first_least(diffs: Seq<[u64; 33]>, n: nat) -> int
    decreases n,
{
    if n <= 1 {
        0
    } else {
        let before = first_least(diffs, (n - 1) as nat);
        if worst(diffs, n - 1) < worst(diffs, before) {
            n - 1
        } else {
            before
        }
    }
}

/// No candidate is below the first least one, and none before it is as low.
proof fn lemma_first_least(diffs: Seq<[u64; 33]>, n: nat)
    requires
        n > 0,
    ensures
        0 <= first_least(diffs, n) < n,
        forall|j: int| 0 <= j < n ==> worst(diffs, first_least(diffs, n)) <= #[trigger] worst(
            diffs,
            j,
        ),
        forall|j: int|
            0 <= j < first_least(diffs, n) ==> worst(diffs, first_least(diffs, n))
                < #[trigger] worst(diffs, j),
    decreases n,
{
    if n > 1 {
        lemma_first_least(diffs, (n - 1) as nat);
    }
}

/// The candidates are tried from sRGB to PQ, in this order.
pub proof fn lemma_candidates_in_order()
    ensures
        candidate(0) == TransferCharacteristics::Srgb,
        candidate(1) == TransferCharacteristics::Bt709,
        candidate(2) == TransferCharacteristics::Bt470M,
        candidate(3) == TransferCharacteristics::Bt202010bit,
        candidate(4) == TransferCharacteristics::Linear,
        candidate(5) == TransferCharacteristics::Smpte428,
        candidate(6) == TransferCharacteristics::Smpte2084,
{
}

/// A coordinate is less than 0.005 away from `c` ten-thousandths, where a binary32 number is worth
/// that many steps of 2^-149.
pub open spec fn within(x: u32, c: int) -> bool {
    let off = 10000 * f32_value(x) - c * pow2(149);
    !f32_is_nan(x) && !f32_is_infinite(x) && (if off < 0 { -off } else { off }) < 50 * pow2(149)
}

/// Both coordinates are within 0.005 of the given ten-thousandths.
pub open spec fn within_xy(a: Chromaticity, x: int, y: int) -> bool {
    within(a.x, x) && within(a.y, y)
}

/// Primaries are recognised by all eight coordinates, each within 0.005: those of BT.709 and of
/// BT.2020 with the white point D65, and those of P3 with D65 or with the white of cinema. Any
/// others are not recognised.
pub proof fn lemma_primaries_are_told_by_all_coordinates(
    r: Chromaticity,
    g: Chromaticity,
    b: Chromaticity,
    w: Chromaticity,
)
    ensures
        ({
            let p = primaries_of(r, g, b, w);
            let d65 = within_xy(w, 3127, 3290);
            let bt709 = within_xy(r, 6400, 3300) && within_xy(g, 3000, 6000) && within_xy(
                b,
                1500,
                600,
            ) && d65;
            let bt2020 = within_xy(r, 7080, 2920) && within_xy(g, 1700, 7970) && within_xy(
                b,
                1310,
                460,
            ) && d65;
            let p3 = within_xy(r, 6800, 3200) && within_xy(g, 2650, 6900) && within_xy(
                b,
                1500,
                600,
            );
            &&& p == Some(CicpColorPrimaries::Bt709) <==> bt709
            &&& p == Some(CicpColorPrimaries::Bt2020) <==> bt2020
            &&& p == Some(CicpColorPrimaries::Smpte432) <==> p3 && d65
            &&& p == Some(CicpColorPrimaries::Smpte431) <==> p3 && within_xy(w, 3140, 3510)
        }),
{
    lemma_primaries_exclude_one_another(r, g, b, w);
}

} // verus!
