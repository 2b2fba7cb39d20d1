//! What holds of the evaluation of segmented curves.

use crate::float_bits::f64_le_f32_spec;
use crate::iccmax::curve_eval::{
    falls_into, formula_of, step_in, EvalStep, ParfFormula,
};
use crate::iccmax::segmented_curve::{SegmentView, SegmentedCurveView};
use vstd::prelude::*;

verus! {

/// The number at `k` of a list, or zero beyond its end.
pub open spec fn nth(list: Seq<u32>, k: int) -> u32 {
    if 0 <= k < list.len() {
        list[k]
    } else {
        0
    }
}

/// The parameters of a formula are the stored numbers in their order, with zeros for those that
/// are missing: exponent first where there is one. Function types beyond the fourth have no
/// formula.
pub proof fn lemma_parameters_stand_in_order(func_type: u16, p: Seq<u32>)
    ensures
        func_type == 0 ==> formula_of(func_type, p) == Some(
            (ParfFormula::Power { g: nth(p, 0), a: nth(p, 1), b: nth(p, 2), c: nth(p, 3) }),
        ),
        func_type == 1 ==> formula_of(func_type, p) == Some(
            (ParfFormula::Logarithm {
                g: nth(p, 0),
                a: nth(p, 1),
                b: nth(p, 2),
                c: nth(p, 3),
                d: nth(p, 4),
            }),
        ),
        func_type == 2 ==> formula_of(func_type, p) == Some(
            (ParfFormula::Exponential {
                a: nth(p, 0),
                b: nth(p, 1),
                c: nth(p, 2),
                d: nth(p, 3),
                e: nth(p, 4),
            }),
        ),
        func_type == 3 ==> formula_of(func_type, p) == Some(
            (ParfFormula::ScaledPower {
                g: nth(p, 0),
                a: nth(p, 1),
                b: nth(p, 2),
                c: nth(p, 3),
                d: nth(p, 4),
            }),
        ),
        func_type > 3 ==> formula_of(func_type, p) is None,
{
}

/// In a segment that is a formula the curve's value is that formula with the segment's own
/// parameters. Only a formula of an unknown type hands the input on.
pub proof fn lemma_formula_segment_gives_its_formula(
    curve: SegmentedCurveView,
    i: int,
    func_type: u16,
    p: Seq<u32>,
)
    requires
        curve.segments[i] == (SegmentView::Parametric { func_type, params: p }),
    ensures
        step_in(curve, i) is Identity <==> func_type > 3,
        func_type == 0 ==> step_in(curve, i) == EvalStep::Formula(
            (ParfFormula::Power { g: nth(p, 0), a: nth(p, 1), b: nth(p, 2), c: nth(p, 3) }),
        ),
        func_type == 1 ==> step_in(curve, i) == EvalStep::Formula(
            (ParfFormula::Logarithm {
                g: nth(p, 0),
                a: nth(p, 1),
                b: nth(p, 2),
                c: nth(p, 3),
                d: nth(p, 4),
            }),
        ),
        func_type == 2 ==> step_in(curve, i) == EvalStep::Formula(
            (ParfFormula::Exponential {
                a: nth(p, 0),
                b: nth(p, 1),
                c: nth(p, 2),
                d: nth(p, 3),
                e: nth(p, 4),
            }),
        ),
        func_type == 3 ==> step_in(curve, i) == EvalStep::Formula(
            (ParfFormula::ScaledPower {
                g: nth(p, 0),
                a: nth(p, 1),
                b: nth(p, 2),
                c: nth(p, 3),
                d: nth(p, 4),
            }),
        ),
{
}

/// In a segment that is samples the curve's value lies between the samples of that very segment,
/// which reach from the breakpoint before it to the one behind it: from 0 in the first segment,
/// and to 1 in the last. A segment without samples hands the input on.
pub proof fn lemma_sampled_segment_gives_its_samples(
    curve: SegmentedCurveView,
    i: int,
    samples: Seq<u32>,
)
    requires
        curve.segments.len() == curve.breakpoints.len() + 1,
        0 <= i < curve.segments.len() <= usize::MAX,
        curve.segments[i] == SegmentView::Sampled(samples),
    ensures
        samples.len() == 0 ==> step_in(curve, i) is Identity,
        samples.len() > 0 ==> {
            &&& step_in(curve, i) is Samples
            &&& step_in(curve, i)->segment == i
            &&& i == 0 ==> step_in(curve, i)->lo is None
            &&& i > 0 ==> step_in(curve, i)->lo == Some(curve.breakpoints[i - 1])
            &&& i + 1 == curve.segments.len() ==> step_in(curve, i)->hi is None
            &&& i + 1 < curve.segments.len() ==> step_in(curve, i)->hi == Some(
                curve.breakpoints[i],
            )
        },
{
}

/// An input falls into the segment that the first breakpoint not below it ends, or into the last
/// one where every breakpoint is below it.
pub proof fn lemma_first_breakpoint_not_below_ends_the_segment(
    breakpoints: Seq<u32>,
    x: u64,
    i: int,
)
    requires
        0 <= i <= breakpoints.len(),
    ensures
        falls_into(breakpoints, x, i) <==> {
            &&& forall|j: int| 0 <= j < i ==> !f64_le_f32_spec(x, #[trigger] breakpoints[j])
            &&& i < breakpoints.len() ==> f64_le_f32_spec(x, breakpoints[i])
        },
{
    if falls_into(breakpoints, x, i) {
        assert forall|j: int| 0 <= j < i implies !f64_le_f32_spec(
            x,
            #[trigger] breakpoints[j],
        ) by {
            assert(!f64_le_f32_spec(x, breakpoints[j]));
        }
    }
    if forall|j: int| 0 <= j < i ==> !f64_le_f32_spec(x, #[trigger] breakpoints[j]) {
        assert forall|j: int| 0 <= j < i implies !#[trigger] f64_le_f32_spec(
            x,
            breakpoints[j],
        ) by {
            assert(breakpoints[j] == breakpoints[j]);
        }
    }
}

/// Two curves that agree in the segment of an input and in the breakpoints round it are evaluated
/// alike there: nothing else of a curve counts.
pub proof fn lemma_only_the_segment_of_an_input_counts(
    a: SegmentedCurveView,
    b: SegmentedCurveView,
    i: int,
)
    requires
        a.segments.len() == a.breakpoints.len() + 1,
        a.breakpoints.len() == b.breakpoints.len(),
        0 <= i < a.segments.len(),
        a.segments[i] == b.segments[i],
        i > 0 ==> a.breakpoints[i - 1] == b.breakpoints[i - 1],
        i < a.breakpoints.len() ==> a.breakpoints[i] == b.breakpoints[i],
    ensures
        step_in(a, i) == step_in(b, i),
{
}

} // verus!
