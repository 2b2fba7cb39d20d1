//! Tone curves as tables: sampling one at equal distances, and inverting one.

use vstd::prelude::*;

verus! {

/// How many samples a segmented curve is turned into.
pub const SEGMENTED_CURVE_SAMPLES: usize = 1024;

/// A tone curve that can be applied.
#[derive(Clone, Debug)]
pub enum ToneReprCurve {
    /// Values from 0 to 65535 at equal distances. An empty table is the identity.
    Lut(Vec<u16>),
    /// The parameters of a formula, as binary32 patterns.
    Parametric(Vec<u32>),
}

/// What a table gives at step `i` of `steps`, linear between its entries, as a multiple of
/// `1 / steps`.
pub open spec fn lut_sample(lut: Seq<u16>, i: int, steps: int) -> int {
    let place = i * (lut.len() - 1);
    let i0 = place / steps;
    let part = place % steps;
    let i1 = if i0 + 1 < lut.len() {
        i0 + 1
    } else {
        lut.len() - 1
    };
    lut[i0] * (steps - part) + lut[i1] * part
}

/// What a table gives at step `i` of `steps`, as a multiple of `1 / (65535 * steps)`. An empty
/// table is the identity.
pub open spec fn table_sample(lut: Seq<u16>, i: int, steps: int) -> int {
    if lut.len() == 0 {
        i * 65535
    } else {
        lut_sample(lut, i, steps)
    }
}

/// Reads a table at step `i` of `steps`.
fn sample_lut(lut: &Vec<u16>, i: usize, steps: usize) -> (r: u64)
    requires
        lut@.len() > 0,
        i <= steps,
        0 < steps,
        steps * 65535 <= u64::MAX,
    ensures
        r == lut_sample(lut@, i as int, steps as int),
{
    let last: usize = lut.len() - 1;
    assert(0 <= i * last <= u128::MAX) by (nonlinear_arith)
        requires
            0 <= i <= u64::MAX,
            0 <= last <= u64::MAX,
    ;
    let place: u128 = (i as u128) * (last as u128);
    let i0_wide: u128 = place / (steps as u128);
    let part_wide: u128 = place % (steps as u128);
    proof {
        lemma_sample_in_table(lut@, i as int, steps as int);
    }
    let i0: usize = i0_wide as usize;
    let part: u64 = part_wide as u64;
    let i1: usize = if i0 < last {
        i0 + 1
    } else {
        last
    };
    let a: u16 = lut[i0];
    let b: u16 = lut[i1];
    let rest: u64 = steps as u64 - part;
    assert(0 <= a * rest && 0 <= b * part && a * rest + b * part <= 65535 * steps)
        by (nonlinear_arith)
        requires
            0 <= a <= 65535,
            0 <= b <= 65535,
            0 <= part <= steps,
            rest == steps - part,
    ;
    (a as u64) * rest + (b as u64) * part
}

/// A step of a table lies between two of its entries.
proof fn lemma_sample_in_table(lut: Seq<u16>, i: int, steps: int)
    requires
        lut.len() > 0,
        0 <= i <= steps,
        0 < steps,
    ensures
        0 <= i * (lut.len() - 1) / steps <= lut.len() - 1,
        0 <= i * (lut.len() - 1) % steps < steps,
{
    let last = lut.len() - 1;
    let place = i * last;
    assert(0 <= place <= steps * last) by (nonlinear_arith)
        requires
            place == i * last,
            0 <= i <= steps,
            0 <= last,
    ;
    assert(0 <= place / steps <= last && 0 <= place % steps < steps) by (nonlinear_arith)
        requires
            0 <= place <= steps * last,
            0 < steps,
    ;
}

/// Samples a table at equally spaced points from 0 to 1.
fn sample_table(lut: &Vec<u16>, samples: usize) -> (r: Vec<u64>)
    requires
        2 <= samples,
        (samples - 1) * 65535 <= u64::MAX,
    ensures
        r@.len() == samples,
        forall|i: int|
            0 <= i < samples ==> #[trigger] r@[i] == table_sample(lut@, i, samples - 1),
{
    let mut out: Vec<u64> = Vec::new();
    let steps: usize = samples - 1;
    for i in 0..samples
        invariant
            1 <= steps == samples - 1,
            steps * 65535 <= u64::MAX,
            out@.len() == i,
            forall|j: int|
                0 <= j < i ==> #[trigger] out@[j] == table_sample(lut@, j, steps as int),
    {
        let v: u64 = if lut.len() == 0 {
            i as u64 * 65535
        } else {
            sample_lut(lut, i, steps)
        };
        out.push(v);
    }
    out
}

/// What gives the values of a curve at equally spaced points from 0 to 1.
#[derive(Clone, Debug)]
pub enum CurveSamples<'a> {
    /// The values themselves, each as a multiple of `1 / (65535 * steps)`, where `steps` is how
    /// many distances there are between the points.
    Values(Vec<u64>),
    /// The formula of these parameters, to be evaluated at each point.
    Formula(&'a [u32]),
}

/// Says what gives the values of a curve at `samples` equally spaced points from 0 to 1: those
/// of a table are interpolated, and a parametric curve is evaluated with its own parameters.
pub fn sample_curve<'a>(curve: &'a ToneReprCurve, samples: usize) -> (r: CurveSamples<'a>)
    requires
        2 <= samples,
        (samples - 1) * 65535 <= u64::MAX,
    ensures
        match *curve {
            ToneReprCurve::Lut(lut) => {
                &&& r is Values
                &&& r->Values_0@.len() == samples
                &&& forall|i: int|
                    0 <= i < samples ==> #[trigger] r->Values_0@[i] == table_sample(
                        lut@,
                        i,
                        samples - 1,
                    )
            },
            ToneReprCurve::Parametric(params) => r is Formula && r->Formula_0@ == params@,
        },
{
    match curve {
        ToneReprCurve::Lut(lut) => CurveSamples::Values(sample_table(lut, samples)),
        ToneReprCurve::Parametric(params) => CurveSamples::Formula(params.as_slice()),
    }
}

/// Where the inverse of a table reaches `i` of its last step: the first entry `j` whose
/// follower is not below that share of the full scale, or the last entry.
pub open spec fn is_crossing(samples: Seq<u16>, i: int, j: int) -> bool {
    let last = samples.len() - 1;
    &&& 0 <= j <= last
    &&& j < last ==> samples[j + 1] * last >= i * 65535
    &&& forall|k: int| 0 <= k < j ==> #[trigger] samples[k + 1] * last < i * 65535
}

/// For every step of the inverse of a table, finds the entry from which on the table crosses
/// it. In a table that rises and falls the first crossing counts.
pub fn inverse_cells(samples: &[u16]) -> (cells: Vec<usize>)
    requires
        samples@.len() == SEGMENTED_CURVE_SAMPLES,
    ensures
        cells@.len() == samples@.len(),
        forall|i: int|
            0 <= i < cells@.len() ==> is_crossing(samples@, i, #[trigger] cells@[i] as int),
{
    let last: usize = SEGMENTED_CURVE_SAMPLES - 1;
    let mut cells: Vec<usize> = Vec::new();
    let mut j: usize = 0;
    for i in 0..SEGMENTED_CURVE_SAMPLES
        invariant
            last == 1023,
            samples@.len() == 1024,
            j <= last,
            cells@.len() == i,
            forall|k: int| 0 <= k < i ==> is_crossing(samples@, k, #[trigger] cells@[k] as int),
            forall|k: int| 0 <= k < j ==> #[trigger] samples@[k + 1] * last < i * 65535,
    {
        while j < last && (samples[j + 1] as usize) * last < i * 65535
            invariant
                last == 1023,
                i < 1024,
                samples@.len() == 1024,
                j <= last,
                forall|k: int| 0 <= k < j ==> #[trigger] samples@[k + 1] * last < i * 65535,
            decreases last - j,
        {
            j = j + 1;
        }
        cells.push(j);
    }
    cells
}

/// A table is joined by straight lines: a step between two entries has its share of both. A table
/// of one entry is that entry everywhere, and an empty one is the identity.
pub proof fn lemma_table_is_joined_by_straight_lines(lut: Seq<u16>, i: int, steps: int, j: int)
    requires
        0 <= i <= steps,
        0 < steps,
    ensures
        lut.len() == 0 ==> table_sample(lut, i, steps) == i * 65535,
        lut.len() == 1 ==> table_sample(lut, i, steps) == lut[0] * steps,
        ({
            let place = i * (lut.len() - 1);
            0 <= j < lut.len() - 1 && j * steps <= place <= (j + 1) * steps ==> table_sample(
                lut,
                i,
                steps,
            ) == lut[j] * ((j + 1) * steps - place) + lut[j + 1] * (place - j * steps)
        }),
{
    let last = lut.len() - 1;
    let place = i * last;
    if lut.len() == 1 {
        assert(i * 0 == 0 && 0int / steps == 0 && 0int % steps == 0) by (nonlinear_arith)
            requires
                steps > 0,
        ;
    }
    if 0 <= j < last && j * steps <= place <= (j + 1) * steps {
        assert((j + 1) * steps == j * steps + steps) by (nonlinear_arith);
        if place < (j + 1) * steps {
            assert(place / steps == j && place % steps == place - j * steps) by (nonlinear_arith)
                requires
                    j * steps <= place < j * steps + steps,
                    steps > 0,
            ;
        } else {
            assert(place / steps == j + 1 && place % steps == 0) by (nonlinear_arith)
                requires
                    place == (j + 1) * steps,
                    steps > 0,
            ;
            assert(lut[j] * 0 == 0);
        }
    }
}

/// The inverse of a table crosses a step at the first entry whose follower reaches it, and at the
/// last entry where none does: `i` steps of all are `i * 65535` parts of the full scale.
pub proof fn lemma_first_crossing_counts(samples: Seq<u16>, i: int, j: int)
    ensures
        is_crossing(samples, i, j) <==> {
            let last = samples.len() - 1;
            &&& 0 <= j <= last
            &&& forall|k: int| 1 <= k <= j ==> #[trigger] samples[k] * last < i * 65535
            &&& j == last || samples[j + 1] * last >= i * 65535
        },
{
    let last = samples.len() - 1;
    if is_crossing(samples, i, j) {
        assert forall|k: int| 1 <= k <= j implies #[trigger] samples[k] * last < i * 65535 by {
            let m = k - 1;
            assert(samples[m + 1] * last < i * 65535);
        }
    }
    if forall|k: int| 1 <= k <= j ==> #[trigger] samples[k] * last < i * 65535 {
        assert forall|k: int| 0 <= k < j implies #[trigger] samples[k + 1] * last < i * 65535 by {}
    }
}

} // verus!
