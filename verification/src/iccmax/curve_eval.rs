//! How a segmented curve is evaluated: which segment an input falls into, and what has to be
//! computed there.
//!
//! The input is a binary64 pattern. The arithmetic itself is left to the caller.

use crate::float_bits::{f64_le_f32, f64_le_f32_spec};
use crate::iccmax::segmented_curve::{
    CurveSegment, SegmentView, SegmentedCurve, SegmentedCurveView,
};
use vstd::prelude::*;

verus! {

/// A formula of a `parf` segment with its parameters as binary32 patterns.
#[derive(Clone, Copy, Debug, PartialEq, Eq, Structural)]
pub enum ParfFormula {
    /// `(a * x + b) ^ g + c`
    Power { g: u32, a: u32, b: u32, c: u32 },
    /// `a * log10(b * x ^ g + c) + d`
    Logarithm { g: u32, a: u32, b: u32, c: u32, d: u32 },
    /// `a * b ^ (c * x + d) + e`
    Exponential { a: u32, b: u32, c: u32, d: u32, e: u32 },
    /// `a * (b * x + c) ^ g + d`
    ScaledPower { g: u32, a: u32, b: u32, c: u32, d: u32 },
}

/// What gives the curve's value at an input, before it is clamped to 0..=1.
#[derive(Clone, Copy, Debug, PartialEq, Eq, Structural)]
pub enum EvalStep {
    /// The input itself.
    Identity,
    /// A formula.
    Formula(ParfFormula),
    /// Interpolation between the samples of a segment, which lie at equal distances from `lo`
    /// to `hi`. Where there is no `lo` the segment starts at 0, and where there is no `hi` it
    /// ends at 1.
    Samples { segment: usize, lo: Option<u32>, hi: Option<u32> },
}

/// The parameter at `i`, or zero where there is none.
pub open spec fn param_of(params: Seq<u32>, i: int) -> u32 {
    if i < params.len() {
        params[i]
    } else {
        0
    }
}

/// The formula of a function type, where the type is known.
pub open spec fn formula_of(func_type: u16, params: Seq<u32>) -> Option<ParfFormula> {
    let p = |i: int| param_of(params, i);
    if func_type == 0 {
        Some(ParfFormula::Power { g: p(0), a: p(1), b: p(2), c: p(3) })
    } else if func_type == 1 {
        Some(ParfFormula::Logarithm { g: p(0), a: p(1), b: p(2), c: p(3), d: p(4) })
    } else if func_type == 2 {
        Some(ParfFormula::Exponential { a: p(0), b: p(1), c: p(2), d: p(3), e: p(4) })
    } else if func_type == 3 {
        Some(ParfFormula::ScaledPower { g: p(0), a: p(1), b: p(2), c: p(3), d: p(4) })
    } else {
        None
    }
}

/// Segment `i` is the one that `x` falls into: `x` is above every breakpoint before it, and
/// not above the breakpoint that ends it, if there is one. What is not a number is never
/// found to be below a breakpoint, nor to be below one that is not a number.
pub open spec fn falls_into(breakpoints: Seq<u32>, x: u64, i: int) -> bool {
    &&& 0 <= i <= breakpoints.len()
    &&& forall|j: int| 0 <= j < i ==> !#[trigger] f64_le_f32_spec(x, breakpoints[j])
    &&& i < breakpoints.len() ==> f64_le_f32_spec(x, breakpoints[i])
}

/// What has to be computed in segment `i` of a curve.
pub open spec fn step_in(curve: SegmentedCurveView, i: int) -> EvalStep {
    match curve.segments[i] {
        SegmentView::Parametric { func_type, params } => match formula_of(func_type, params) {
            Some(f) => EvalStep::Formula(f),
            None => EvalStep::Identity,
        },
        SegmentView::Sampled(samples) => if samples.len() == 0 {
            EvalStep::Identity
        } else {
            EvalStep::Samples {
                segment: i as usize,
                lo: if i == 0 {
                    None
                } else {
                    Some(curve.breakpoints[i - 1])
                },
                hi: if i == curve.breakpoints.len() {
                    None
                } else {
                    Some(curve.breakpoints[i])
                },
            }
        },
    }
}

/// Reads the parameter at `i`, or zero where there is none.
fn param(params: &[u32], i: usize) -> (r: u32)
    ensures
        r == param_of(params@, i as int),
{
    if i < params.len() {
        params[i]
    } else {
        0
    }
}

/// The formula of a function type. A type that is not known has none.
pub fn eval_parf(func_type: u16, params: &[u32]) -> (r: Option<ParfFormula>)
    ensures
        r == formula_of(func_type, params@),
{
    match func_type {
        0 => Some(
            ParfFormula::Power {
                g: param(params, 0),
                a: param(params, 1),
                b: param(params, 2),
                c: param(params, 3),
            },
        ),
        1 => Some(
            ParfFormula::Logarithm {
                g: param(params, 0),
                a: param(params, 1),
                b: param(params, 2),
                c: param(params, 3),
                d: param(params, 4),
            },
        ),
        2 => Some(
            ParfFormula::Exponential {
                a: param(params, 0),
                b: param(params, 1),
                c: param(params, 2),
                d: param(params, 3),
                e: param(params, 4),
            },
        ),
        3 => Some(
            ParfFormula::ScaledPower {
                g: param(params, 0),
                a: param(params, 1),
                b: param(params, 2),
                c: param(params, 3),
                d: param(params, 4),
            },
        ),
        _ => None,
    }
}

impl SegmentedCurve {
    /// Finds the segment that `x` falls into.
    pub fn locate(&self, x: u64) -> (i: usize)
        ensures
            falls_into(self@.breakpoints, x, i as int),
    {
        for i in 0..self.breakpoints.len()
            invariant
                forall|j: int|
                    0 <= j < i ==> !#[trigger] f64_le_f32_spec(x, self@.breakpoints[j]),
        {
            if f64_le_f32(x, self.breakpoints[i]) {
                return i;
            }
        }
        self.breakpoints.len()
    }

    /// Says what gives the curve's value at `x`.
    pub fn eval(&self, x: u64) -> (step: EvalStep)
        requires
            self@.segments.len() == self@.breakpoints.len() + 1,
        ensures
            forall|i: int| #[trigger]
                falls_into(self@.breakpoints, x, i) ==> step == step_in(self@, i),
            forall|i: int| #[trigger]
                falls_into(self@.breakpoints, x, i) ==> match self.segments@[i] {
                    CurveSegment::Parametric { func_type, params } => {
                        let p = params@;
                        &&& step is Identity <==> func_type > 3
                        &&& func_type == 0 && p.len() == 4 ==> step == EvalStep::Formula(
                            (ParfFormula::Power { g: p[0], a: p[1], b: p[2], c: p[3] }),
                        )
                        &&& func_type == 1 && p.len() == 5 ==> step == EvalStep::Formula(
                            (ParfFormula::Logarithm {
                                g: p[0],
                                a: p[1],
                                b: p[2],
                                c: p[3],
                                d: p[4],
                            }),
                        )
                        &&& func_type == 2 && p.len() == 5 ==> step == EvalStep::Formula(
                            (ParfFormula::Exponential {
                                a: p[0],
                                b: p[1],
                                c: p[2],
                                d: p[3],
                                e: p[4],
                            }),
                        )
                        &&& func_type == 3 && p.len() == 5 ==> step == EvalStep::Formula(
                            (ParfFormula::ScaledPower {
                                g: p[0],
                                a: p[1],
                                b: p[2],
                                c: p[3],
                                d: p[4],
                            }),
                        )
                    },
                    CurveSegment::Sampled(samples) => {
                        &&& step is Identity <==> samples@.len() == 0
                        &&& samples@.len() > 0 ==> step is Samples && step->segment == i
                    },
                },
            exists|i: int| falls_into(self@.breakpoints, x, i),
    {
        let at: usize = self.locate(x);
        proof {
            assert forall|i: int| #[trigger] falls_into(self@.breakpoints, x, i) implies i
                == at by {
                lemma_one_segment(self@.breakpoints, x, i, at as int);
            }
            assert(self@.segments[at as int] == self.segments@[at as int]@);
        }
        match &self.segments[at] {
            CurveSegment::Parametric { func_type, params } => match eval_parf(
                *func_type,
                params.as_slice(),
            ) {
                Some(f) => EvalStep::Formula(f),
                None => EvalStep::Identity,
            },
            CurveSegment::Sampled(samples) => {
                if samples.len() == 0 {
                    return EvalStep::Identity;
                }
                let lo = if at == 0 {
                    None
                } else {
                    Some(self.breakpoints[at - 1])
                };
                let hi = if at == self.breakpoints.len() {
                    None
                } else {
                    Some(self.breakpoints[at])
                };
                EvalStep::Samples { segment: at, lo, hi }
            },
        }
    }
}

/// Every input falls into no more than one segment.
pub proof fn lemma_one_segment(breakpoints: Seq<u32>, x: u64, i: int, j: int)
    requires
        falls_into(breakpoints, x, i),
        falls_into(breakpoints, x, j),
    ensures
        i == j,
{
    if i < j {
        assert(!f64_le_f32_spec(x, breakpoints[i]));
    }
    if j < i {
        assert(!f64_le_f32_spec(x, breakpoints[j]));
    }
}

/// The two samples on either side of a place between samples: `pos` is how many whole
/// sample distances lie before the place, of `n` samples.
pub fn sample_neighbours(pos: usize, n: usize) -> (r: (usize, usize))
    requires
        n > 0,
    ensures
        r.0 == if pos < n {
            pos as int
        } else {
            n - 1
        },
        r.1 == if r.0 + 1 < n {
            r.0 + 1
        } else {
            n - 1
        },
{
    let i0: usize = if pos < n {
        pos
    } else {
        n - 1
    };
    let i1: usize = if i0 < n - 1 {
        i0 + 1
    } else {
        n - 1
    };
    (i0, i1)
}

} // verus!
