//! What holds of the readers as a whole.

use crate::bytes::{be32, range_error, range_of};
use crate::err::CmsError;
use crate::float_bits::{f32_is_infinite, f32_is_nan, f32_value, f64_le_f32_spec, f64_value};
use crate::iccmax::canonical::{
    candidate, fits_best, is_d65, is_near, is_near_xy, largest, primaries_of, worst,
    CicpColorPrimaries, TransferCharacteristics, TRANSFER_TOLERANCE,
};
use crate::iccmax::cept::{cept_of, Chromaticity, SIG_CEPT};
use crate::iccmax::curve_eval::{falls_into, lemma_one_segment};
use crate::iccmax::elements::{SIG_CVST, SIG_MATF};
use crate::iccmax::mpet::{
    chain_of, curves_and_matrix, curves_only, element_blob, element_error, is_short_rgb_chain,
    matrix_only, mpet_of, MpetView,
};
use crate::iccmax::segmented_curve::{segment_count, segment_start};
use crate::iccmax::tag_struct::{tag_struct_error, tag_struct_of, TagStructView};
use crate::iccmax::tone_curve::{is_crossing, lut_sample, table_sample};
use crate::iccmax::utf8_tag::{utf8_tag_error, without_trailing_nuls};
use vstd::arithmetic::power2::{
    lemma2_to64, lemma2_to64_rest, lemma_pow2_adds, lemma_pow2_pos, pow2,
};
use vstd::prelude::*;

verus! {

/// The text without its trailing NULs is the start of the text. It does not end in a NUL, and
/// nothing but NULs was cut off.
pub proof fn lemma_only_trailing_nuls_go(text: Seq<char>)
    ensures
        ({
            let r = without_trailing_nuls(text);
            &&& r.len() <= text.len()
            &&& r == text.take(r.len() as int)
            &&& r.len() > 0 ==> r.last() != '\0'
            &&& forall|i: int| r.len() <= i < text.len() ==> #[trigger] text[i] == '\0'
        }),
    decreases text.len(),
{
    if text.len() > 0 && text.last() == '\0' {
        lemma_only_trailing_nuls_go(text.drop_last());
        let r = without_trailing_nuls(text);
        assert(text.drop_last().take(r.len() as int) =~= text.take(r.len() as int));
        assert forall|i: int| r.len() <= i < text.len() implies #[trigger] text[i] == '\0' by {
            if i < text.len() - 1 {
                assert(text.drop_last()[i] == '\0');
            }
        }
    } else {
        assert(text.take(text.len() as int) =~= text);
    }
}

/// Numbers read from a sub-range are those of the whole at the shifted place.
proof fn lemma_range_numbers(s: Seq<u8>, entry: int, size: int, i: int)
    requires
        0 <= entry,
        0 <= i,
        i + 4 <= size,
        entry + size <= s.len(),
    ensures
        be32(range_of(s, entry, size), i) == be32(s, entry + i),
{
}

/// What a tag holds is decided by its own bytes alone: the same bytes at another place, or in
/// another profile, read the same.
pub proof fn lemma_tags_stand_alone(s: Seq<u8>, s_at: int, t: Seq<u8>, t_at: int, size: int)
    requires
        0 <= s_at,
        0 <= t_at,
        0 <= size,
        range_error(s.len() as int, s_at, size) is None,
        range_error(t.len() as int, t_at, size) is None,
        range_of(s, s_at, size) == range_of(t, t_at, size),
    ensures
        utf8_tag_error(s, s_at, size) == utf8_tag_error(t, t_at, size),
        size >= 8 ==> range_of(s, s_at + 8, size - 8) == range_of(t, t_at + 8, size - 8),
        tag_struct_error(s, s_at, size) == tag_struct_error(t, t_at, size),
        mpet_of(s, s_at, size) == mpet_of(t, t_at, size),
        cept_of(s, s_at, size) == cept_of(t, t_at, size),
{
    let blob = range_of(s, s_at, size);
    if size >= 8 {
        lemma_range_numbers(s, s_at, size, 0);
        lemma_range_numbers(t, t_at, size, 0);
        assert(range_of(s, s_at + 8, size - 8) =~= range_of(blob, 8, size - 8));
        assert(range_of(t, t_at + 8, size - 8) =~= range_of(blob, 8, size - 8));
    }
    if size >= 16 {
        lemma_range_numbers(s, s_at, size, 12);
        lemma_range_numbers(t, t_at, size, 12);
    }
}

/// A tag that is no short chain of three channels is passed over without an error, as long as
/// it lies in the profile.
pub proof fn lemma_other_chains_are_passed_over(s: Seq<u8>, entry: int, size: int)
    requires
        range_error(s.len() as int, entry, size) is None,
        size < 16 || !is_short_rgb_chain(range_of(s, entry, size)),
    ensures
        mpet_of(s, entry, size) == Ok::<Option<MpetView>, CmsError>(None),
{
}

/// A chain that holds an element other than a curve set or a matrix is passed over without an
/// error, as long as its elements lie in the tag.
pub proof fn lemma_other_elements_are_passed_over(s: Seq<u8>, entry: int, size: int, k: int)
    requires
        ({
            let blob = range_of(s, entry, size);
            let sig = be32(element_blob(blob, k), 0);
            &&& range_error(s.len() as int, entry, size) is None
            &&& size >= 16
            &&& is_short_rgb_chain(blob)
            &&& size >= 16 + 8 * be32(blob, 12)
            &&& 0 <= k < be32(blob, 12)
            &&& element_error(blob, 0) is None
            &&& be32(blob, 12) == 2 ==> element_error(blob, 1) is None
            &&& sig != SIG_CVST && sig != SIG_MATF
        }),
    ensures
        mpet_of(s, entry, size) == Ok::<Option<MpetView>, CmsError>(None),
{
}

/// Where there is a matrix shaper, it has a curve for each of the three channels, three rows and
/// three offsets.
pub open spec fn is_full(r: Result<Option<MpetView>, CmsError>) -> bool {
    r matches Ok(Some(shaper)) ==> {
        &&& shaper.curves.len() >= 3
        &&& shaper.matrix.len() == 3
        &&& shaper.offset.len() == 3
    }
}

/// Each shape of chain gives a full matrix shaper or none.
proof fn lemma_shapes_are_full(a: Seq<u8>, b: Seq<u8>, curves_first: bool)
    ensures
        is_full(matrix_only(a)),
        is_full(curves_only(a)),
        is_full(curves_and_matrix(a, b, curves_first)),
{
}

/// A chain gives a full matrix shaper or none.
proof fn lemma_chain_is_full(blob: Seq<u8>)
    ensures
        is_full(chain_of(blob)),
{
    let e0 = element_blob(blob, 0);
    let e1 = element_blob(blob, 1);
    lemma_shapes_are_full(e0, e1, true);
    lemma_shapes_are_full(e1, e0, false);
}

/// A matrix shaper has a curve for each of the three channels, three rows and three offsets.
pub proof fn lemma_shaper_is_full(s: Seq<u8>, entry: int, size: int)
    ensures
        is_full(mpet_of(s, entry, size)),
{
    lemma_chain_is_full(range_of(s, entry, size));
}

/// A tag that is no `cept` structure is passed over without an error.
pub proof fn lemma_other_structures_are_passed_over(s: Seq<u8>, entry: int, size: int)
    requires
        tag_struct_error(s, entry, size) is Some || tag_struct_of(
            range_of(s, entry, size),
        ).struct_id != SIG_CEPT@,
    ensures
        cept_of(s, entry, size) is Ok,
        cept_of(s, entry, size)->Ok_0 is None,
{
}

/// What is found for a signature is the first row that has it.
pub proof fn lemma_first_row_is_found(ts: TagStructView, sig: Seq<u8>, i: int)
    requires
        0 <= i < ts.entries.len(),
        ts.entries[i].sig == sig,
        forall|j: int| 0 <= j < i ==> #[trigger] ts.entries[j].sig != sig,
    ensures
        ts.find(sig) == Some(ts.entries[i]),
{
    let k = ts.first(sig);
    assert(ts.entries[k].sig == sig);
    assert(k == i);
}

/// Every segment starts on a multiple of four bytes, so that no padding is ever needed between
/// two of them.
pub proof fn lemma_segments_are_aligned(blob: Seq<u8>, i: nat)
    requires
        segment_count(blob) >= 1,
    ensures
        segment_start(blob, i) % 4 == 0,
    decreases i,
{
    if i > 0 {
        lemma_segments_are_aligned(blob, (i - 1) as nat);
    }
}

/// A number that is not above another is not above a larger one either.
proof fn lemma_below_larger(x: u64, a: u32, b: u32)
    requires
        f64_le_f32_spec(x, a),
        !f32_is_nan(b),
        !f32_is_infinite(a),
        !f32_is_infinite(b),
        f32_value(a) <= f32_value(b),
    ensures
        f64_le_f32_spec(x, b),
{
    lemma_pow2_pos(925);
    let p = pow2(925) as int;
    assert(f32_value(a) * p <= f32_value(b) * p) by (nonlinear_arith)
        requires
            f32_value(a) <= f32_value(b),
            p > 0,
    ;
}

/// With breakpoints in rising order the first segment holds everything up to the first
/// breakpoint, each further one what is above one breakpoint and not above the next, and the
/// last one everything above the last breakpoint.
pub proof fn lemma_segments_are_intervals(breakpoints: Seq<u32>, x: u64, i: int)
    requires
        0 <= i <= breakpoints.len(),
        forall|j: int|
            0 <= j < breakpoints.len() ==> !f32_is_nan(#[trigger] breakpoints[j])
                && !f32_is_infinite(breakpoints[j]),
        forall|j: int, k: int|
            0 <= j <= k < breakpoints.len() ==> f32_value(#[trigger] breakpoints[j]) <= f32_value(
                #[trigger] breakpoints[k],
            ),
    ensures
        falls_into(breakpoints, x, i) <==> {
            &&& i > 0 ==> !f64_le_f32_spec(x, breakpoints[i - 1])
            &&& i < breakpoints.len() ==> f64_le_f32_spec(x, breakpoints[i])
        },
{
    if i > 0 && !f64_le_f32_spec(x, breakpoints[i - 1]) {
        assert forall|j: int| 0 <= j < i implies !#[trigger] f64_le_f32_spec(x, breakpoints[j]) by {
            if f64_le_f32_spec(x, breakpoints[j]) {
                lemma_below_larger(x, breakpoints[j], breakpoints[i - 1]);
            }
        }
    }
}

/// Every input falls into one segment, and into one only.
pub proof fn lemma_one_segment_for_all(breakpoints: Seq<u32>, x: u64)
    ensures
        exists|i: int| falls_into(breakpoints, x, i),
        forall|i: int, j: int| #[trigger]
            falls_into(breakpoints, x, i) && #[trigger] falls_into(breakpoints, x, j) ==> i == j,
{
    lemma_some_segment(breakpoints, x, 0);
    assert forall|i: int, j: int| #[trigger]
        falls_into(breakpoints, x, i) && #[trigger] falls_into(breakpoints, x, j) implies i
        == j by {
        lemma_one_segment(breakpoints, x, i, j);
    }
}

/// Beyond breakpoints that the input is above there is a segment that it falls into.
proof fn lemma_some_segment(breakpoints: Seq<u32>, x: u64, i: int)
    requires
        0 <= i <= breakpoints.len(),
        forall|j: int| 0 <= j < i ==> !#[trigger] f64_le_f32_spec(x, breakpoints[j]),
    ensures
        exists|k: int| falls_into(breakpoints, x, k),
    decreases breakpoints.len() - i,
{
    if i < breakpoints.len() && !f64_le_f32_spec(x, breakpoints[i]) {
        lemma_some_segment(breakpoints, x, i + 1);
    } else {
        assert(falls_into(breakpoints, x, i));
    }
}

/// A sampled table stays between 0 and 1, and starts and ends with its first and its last entry,
/// or at 0 and 1 where it is empty.
pub proof fn lemma_samples_are_in_range(lut: Seq<u16>, i: int, steps: int)
    requires
        0 <= i <= steps,
        0 < steps,
    ensures
        0 <= table_sample(lut, i, steps) <= 65535 * steps,
        lut.len() > 0 ==> table_sample(lut, 0, steps) == lut[0] * steps,
        lut.len() > 0 ==> table_sample(lut, steps, steps) == lut.last() * steps,
        lut.len() == 0 ==> table_sample(lut, 0, steps) == 0,
        lut.len() == 0 ==> table_sample(lut, steps, steps) == 65535 * steps,
{
    if lut.len() > 0 {
        let last = lut.len() - 1;
        lemma_lut_sample_in_range(lut, i, steps);
        assert(0 * last == 0 && 0int / steps == 0 && 0int % steps == 0) by (nonlinear_arith)
            requires
                steps > 0,
        ;
        assert((steps * last) / steps == last && (steps * last) % steps == 0) by (nonlinear_arith)
            requires
                steps > 0,
        ;
    }
}

/// A value between two table entries is at most the full scale.
proof fn lemma_lut_sample_in_range(lut: Seq<u16>, i: int, steps: int)
    requires
        lut.len() > 0,
        0 <= i <= steps,
        0 < steps,
    ensures
        0 <= lut_sample(lut, i, steps) <= 65535 * steps,
{
    let place = i * (lut.len() - 1);
    let part = place % steps;
    let i0 = place / steps;
    let i1 = if i0 + 1 < lut.len() {
        i0 + 1
    } else {
        lut.len() - 1
    };
    let a = lut[i0] as int;
    let b = lut[i1] as int;
    assert(0 <= part < steps) by (nonlinear_arith)
        requires
            part == place % steps,
            steps > 0,
    ;
    assert(0 <= a * (steps - part) + b * part <= 65535 * steps) by (nonlinear_arith)
        requires
            0 <= a <= 65535,
            0 <= b <= 65535,
            0 <= part < steps,
    ;
}

/// The inverse of a table never steps back: a later step is crossed no earlier.
pub proof fn lemma_crossings_do_not_fall(samples: Seq<u16>, i1: int, j1: int, i2: int, j2: int)
    requires
        is_crossing(samples, i1, j1),
        is_crossing(samples, i2, j2),
        i1 <= i2,
    ensures
        j1 <= j2,
{
    if j2 < j1 {
        let last = samples.len() - 1;
        assert(samples[j2 + 1] * last < i1 * 65535);
    }
}

/// In a table that does not fall, a step between its first and its last entry lies between the
/// entry where it is crossed and the next one.
pub proof fn lemma_crossing_brackets(samples: Seq<u16>, i: int, j: int)
    requires
        is_crossing(samples, i, j),
        forall|a: int, b: int|
            0 <= a <= b < samples.len() ==> #[trigger] samples[a] <= #[trigger] samples[b],
        samples[0] * (samples.len() - 1) <= i * 65535 <= samples.last() * (samples.len() - 1),
    ensures
        samples[j] * (samples.len() - 1) <= i * 65535,
        j + 1 < samples.len() ==> i * 65535 <= samples[j + 1] * (samples.len() - 1),
{
    if j > 0 {
        let k = j - 1;
        assert(samples[k + 1] * (samples.len() - 1) < i * 65535);
    }
}

/// A number is not near two places that are a hundred ten-thousandths apart.
proof fn lemma_near_one_place(x: u32, c: int, d: int)
    requires
        is_near(x, c),
        c + 100 <= d || d + 100 <= c,
    ensures
        !is_near(x, d),
{
    lemma_pow2_pos(149);
    let p = pow2(149) as int;
    let v = f32_value(x);
    assert(!(-50 * p < 10000 * v - d * p < 50 * p)) by (nonlinear_arith)
        requires
            -50 * p < 10000 * v - c * p < 50 * p,
            c + 100 <= d || d + 100 <= c,
            p > 0,
    ;
}

/// The known sets of primaries exclude one another: each is recognised exactly when the four
/// chromaticities are near its own, whatever set is tried first.
pub proof fn lemma_primaries_exclude_one_another(
    r: Chromaticity,
    g: Chromaticity,
    b: Chromaticity,
    w: Chromaticity,
)
    ensures
        ({
            let p3 = is_near_xy(r, 6800, 3200) && is_near_xy(g, 2650, 6900) && is_near_xy(
                b,
                1500,
                600,
            );
            let p = primaries_of(r, g, b, w);
            &&& p == Some(CicpColorPrimaries::Bt709) <==> is_near_xy(r, 6400, 3300) && is_near_xy(
                g,
                3000,
                6000,
            ) && is_near_xy(b, 1500, 600) && is_d65(w)
            &&& p == Some(CicpColorPrimaries::Bt2020) <==> is_near_xy(r, 7080, 2920) && is_near_xy(
                g,
                1700,
                7970,
            ) && is_near_xy(b, 1310, 460) && is_d65(w)
            &&& p == Some(CicpColorPrimaries::Smpte432) <==> p3 && is_d65(w)
            &&& p == Some(CicpColorPrimaries::Smpte431) <==> p3 && is_near_xy(w, 3140, 3510)
        }),
{
    if is_near(r.x, 6400) {
        lemma_near_one_place(r.x, 6400, 7080);
        lemma_near_one_place(r.x, 6400, 6800);
    }
    if is_near(r.x, 7080) {
        lemma_near_one_place(r.x, 7080, 6800);
    }
    if is_near(w.y, 3290) {
        lemma_near_one_place(w.y, 3290, 3510);
    }
}

/// The tolerance is three hundred units of 65535, as closely as a binary64 number can be: it is
/// no more than half a step of its fraction field off.
pub proof fn lemma_tolerance_is_three_hundred_units()
    ensures
        ({
            let step = pow2(1014) as int;
            let one = step * 0x1000_0000_0000_0000;
            let off = 65535 * f64_value(TRANSFER_TOLERANCE) - 300 * one;
            &&& one == pow2(1074)
            &&& -65535 * step <= 2 * off <= 65535 * step
        }),
{
    lemma2_to64();
    lemma2_to64_rest();
    lemma_pow2_adds(1014, 60);
    lemma_pow2_pos(1014);
    let step = pow2(1014) as int;
    let f = 0x2_c012_c012_c013int;
    let v = 0x10_0000_0000_0000 + f;
    assert(f64_value(TRANSFER_TOLERANCE) == v * step);
    let part = 65535 * v - 300 * 0x1000_0000_0000_0000;
    assert(65535 * (v * step) - 300 * (step * 0x1000_0000_0000_0000) == part * step)
        by (nonlinear_arith)
        requires
            part == 65535 * v - 300 * 0x1000_0000_0000_0000,
    ;
    assert(-65535 * step <= 2 * (part * step) <= 65535 * step) by (nonlinear_arith)
        requires
            -65535 <= 2 * part <= 65535,
            step > 0,
    ;
}

/// BT.2020 at ten bits is never recognised where its differences are those of BT.709, which
/// has the same reference and is tried first.
pub proof fn lemma_bt2020_yields_to_bt709(diffs: Seq<[u64; 33]>)
    requires
        worst(diffs, 1) == worst(diffs, 3),
    ensures
        !fits_best(diffs, 3),
        forall|k: int| #[trigger] fits_best(diffs, k) ==> candidate(k)
            != TransferCharacteristics::Bt202010bit,
{
    if fits_best(diffs, 3) {
        assert(worst(diffs, 3) < worst(diffs, 1));
    }
}

/// No difference is worth less than nothing.
proof fn lemma_largest_not_negative(d: Seq<u64>, n: nat)
    ensures
        largest(d, n) >= 0,
    decreases n,
{
    if n > 0 {
        lemma_largest_not_negative(d, (n - 1) as nat);
    }
}

/// Where a curve meets the reference of a candidate everywhere, and that of none before it, the
/// candidate is the one that fits best.
pub proof fn lemma_exact_match_is_recognised(diffs: Seq<[u64; 33]>, k: int)
    requires
        0 <= k < 7,
        worst(diffs, k) == 0,
        forall|j: int| 0 <= j < k ==> #[trigger] worst(diffs, j) != 0,
    ensures
        fits_best(diffs, k),
        forall|j: int| #[trigger] fits_best(diffs, j) ==> j == k,
{
    assert forall|j: int| 0 <= j < 7 implies #[trigger] worst(diffs, j) >= 0 by {
        lemma_largest_not_negative(diffs[j]@, 33);
    }
    lemma_tolerance_is_three_hundred_units();
    assert(f64_value(TRANSFER_TOLERANCE) > 0) by {
        lemma_pow2_pos(1014);
        let q = pow2(1014) as int;
        assert(600 * (q * 0x1000_0000_0000_0000) - 65535 * q > 0) by (nonlinear_arith)
            requires
                q > 0,
        ;
    }
    assert forall|j: int| #[trigger] fits_best(diffs, j) implies j == k by {
        if j < k {
            assert(worst(diffs, j) <= worst(diffs, k));
        }
        if k < j {
            assert(worst(diffs, j) < worst(diffs, k));
        }
    }
}

} // verus!
