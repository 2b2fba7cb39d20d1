//! Segmented curves: `curf` blobs of `parf` formulas and `samf` samples.
//!
//! Curve parameters, samples and breakpoints are kept as the binary32 patterns that the
//! profile stores.

use crate::bytes::{be16, be32, be32_list, read_be16, read_be32, read_be32_list};
use crate::err::CmsError;
use vstd::prelude::*;

verus! {

/// The signature `curf`.
pub const SIG_CURF: u32 = 0x6375_7266;

/// The signature `parf`.
pub const SIG_PARF: u32 = 0x7061_7266;

/// The signature `samf`.
pub const SIG_SAMF: u32 = 0x7361_6d66;

/// One segment of a curve.
#[derive(Clone, Debug)]
pub enum CurveSegment {
    /// A formula with its parameters.
    Parametric { func_type: u16, params: Vec<u32> },
    /// Samples at equal distances.
    Sampled(Vec<u32>),
}

/// A curve in segments. A breakpoint stands between each segment and the next.
#[derive(Clone, Debug)]
pub struct SegmentedCurve {
    pub breakpoints: Vec<u32>,
    pub segments: Vec<CurveSegment>,
}

/// What a segment holds.
pub enum SegmentView {
    Parametric { func_type: u16, params: Seq<u32> },
    Sampled(Seq<u32>),
}

/// What a curve holds.
pub struct SegmentedCurveView {
    pub breakpoints: Seq<u32>,
    pub segments: Seq<SegmentView>,
}

impl View for CurveSegment {
    type V = SegmentView;

    open spec fn view(&self) -> SegmentView {
        match self {
            CurveSegment::Parametric { func_type, params } => SegmentView::Parametric {
                func_type: *func_type,
                params: params@,
            },
            CurveSegment::Sampled(samples) => SegmentView::Sampled(samples@),
        }
    }
}

impl View for SegmentedCurve {
    type V = SegmentedCurveView;

    open spec fn view(&self) -> SegmentedCurveView {
        SegmentedCurveView {
            breakpoints: self.breakpoints@,
            segments: self.segments@.map_values(|s: CurveSegment| s@),
        }
    }
}

impl SegmentView {
    /// A formula has four parameters if it is the first one, else five.
    pub open spec fn well_formed(self) -> bool {
        match self {
            SegmentView::Parametric { func_type, params } => params.len() == param_count(func_type),
            SegmentView::Sampled(samples) => true,
        }
    }
}

impl SegmentedCurveView {
    /// There is a segment, there is a breakpoint between each two, and every formula has its
    /// parameters.
    pub open spec fn well_formed(self) -> bool {
        &&& self.segments.len() == self.breakpoints.len() + 1
        &&& forall|i: int|
            0 <= i < self.segments.len() ==> #[trigger] self.segments[i].well_formed()
    }
}

/// How many parameters a formula has.
pub open spec fn param_count(func_type: u16) -> nat {
    if func_type == 0 {
        4
    } else {
        5
    }
}

/// How many segments a curve blob announces.
pub open spec fn segment_count(blob: Seq<u8>) -> nat {
    be16(blob, 8) as nat
}

/// How many 32-bit numbers the body of the segment at `at` has.
pub open spec fn body_count(blob: Seq<u8>, at: int) -> nat {
    if be32(blob, at) == SIG_PARF {
        param_count(be16(blob, at + 8))
    } else {
        be32(blob, at + 8) as nat
    }
}

/// Where the segment at `at` ends.
pub open spec fn segment_end(blob: Seq<u8>, at: int) -> int {
    at + 12 + 4 * body_count(blob, at)
}

/// Where the segment with index `i` starts: behind the breakpoints, or where the one before
/// it ends.
pub open spec fn segment_start(blob: Seq<u8>, i: nat) -> int
    decreases i,
{
    if i == 0 {
        12 + 4 * (segment_count(blob) - 1)
    } else {
        segment_end(blob, segment_start(blob, (i - 1) as nat))
    }
}

/// The segment at `at`.
pub open spec fn segment_at(blob: Seq<u8>, at: int) -> SegmentView {
    let body = be32_list(blob, at + 12, body_count(blob, at));
    if be32(blob, at) == SIG_PARF {
        SegmentView::Parametric { func_type: be16(blob, at + 8), params: body }
    } else {
        SegmentView::Sampled(body)
    }
}

/// Why there is no segment at `at`.
pub open spec fn segment_error(blob: Seq<u8>, at: int) -> Option<CmsError> {
    if blob.len() < at + 12 || (be32(blob, at) != SIG_PARF && be32(blob, at) != SIG_SAMF) {
        Some(CmsError::InvalidProfile)
    } else if be32(blob, at) == SIG_SAMF && segment_end(blob, at) > usize::MAX {
        Some(CmsError::OverflowingError)
    } else if blob.len() < segment_end(blob, at) {
        Some(CmsError::InvalidProfile)
    } else {
        None
    }
}

/// Why the segments from index `i` on cannot be read: what is wrong with the first of them
/// that is in error.
pub open spec fn segments_error(blob: Seq<u8>, i: nat) -> Option<CmsError>
    decreases segment_count(blob) - i,
{
    if i >= segment_count(blob) {
        None
    } else if segment_error(blob, segment_start(blob, i)) is Some {
        segment_error(blob, segment_start(blob, i))
    } else {
        segments_error(blob, i + 1)
    }
}

/// Why `blob` is no segmented curve.
pub open spec fn curve_error(blob: Seq<u8>) -> Option<CmsError> {
    if blob.len() < 12 || be32(blob, 0) != SIG_CURF || segment_count(blob) == 0 || blob.len()
        < segment_start(blob, 0) {
        Some(CmsError::InvalidProfile)
    } else {
        segments_error(blob, 0)
    }
}

/// The curve that the bytes of a `curf` blob hold.
pub open spec fn curve_of(blob: Seq<u8>) -> SegmentedCurveView {
    SegmentedCurveView {
        breakpoints: be32_list(blob, 12, (segment_count(blob) - 1) as nat),
        segments: Seq::new(
            segment_count(blob),
            |i: int| segment_at(blob, segment_start(blob, i as nat)),
        ),
    }
}

/// Reads the segment at `at`, and says where it ends.
fn read_segment(blob: &[u8], at: usize) -> (r: Result<(CurveSegment, usize), CmsError>)
    requires
        at <= blob@.len(),
    ensures
        match segment_error(blob@, at as int) {
            Some(e) => r == Err::<(CurveSegment, usize), CmsError>(e),
            None => r is Ok && r->Ok_0.0@ == segment_at(blob@, at as int) && r->Ok_0.1
                == segment_end(blob@, at as int) && r->Ok_0.1 <= blob@.len(),
        },
{
    if blob.len() - at < 12 {
        return Err(CmsError::InvalidProfile);
    }
    let sig: u32 = read_be32(blob, at);
    let body_start: usize = at + 12;
    if sig == SIG_PARF {
        let func_type: u16 = read_be16(blob, at + 8);
        let n_params: usize = if func_type == 0 {
            4
        } else {
            5
        };
        if blob.len() - body_start < n_params * 4 {
            return Err(CmsError::InvalidProfile);
        }
        let params = read_be32_list(blob, body_start, n_params);
        Ok((CurveSegment::Parametric { func_type, params }, body_start + n_params * 4))
    } else if sig == SIG_SAMF {
        let count: usize = read_be32(blob, at + 8) as usize;
        let body_end: usize = match count.checked_mul(4) {
            None => return Err(CmsError::OverflowingError),
            Some(size) => match body_start.checked_add(size) {
                None => return Err(CmsError::OverflowingError),
                Some(end) => end,
            },
        };
        if blob.len() < body_end {
            return Err(CmsError::InvalidProfile);
        }
        let samples = read_be32_list(blob, body_start, count);
        Ok((CurveSegment::Sampled(samples), body_end))
    } else {
        Err(CmsError::InvalidProfile)
    }
}

impl SegmentedCurve {
    /// Reads a `curf` blob.
    pub fn read(blob: &[u8]) -> (r: Result<Self, CmsError>)
        ensures
            match curve_error(blob@) {
                Some(e) => r == Err::<Self, CmsError>(e),
                None => r is Ok && r->Ok_0@ == curve_of(blob@) && r->Ok_0@.well_formed(),
            },
    {
        if blob.len() < 12 {
            return Err(CmsError::InvalidProfile);
        }
        if read_be32(blob, 0) != SIG_CURF {
            return Err(CmsError::InvalidProfile);
        }
        let n_segs: usize = read_be16(blob, 8) as usize;
        if n_segs == 0 {
            return Err(CmsError::InvalidProfile);
        }
        let n_breakpoints: usize = n_segs - 1;
        let bp_end: usize = 12 + n_breakpoints * 4;
        if blob.len() < bp_end {
            return Err(CmsError::InvalidProfile);
        }
        let breakpoints = read_be32_list(blob, 12, n_breakpoints);
        let mut cursor: usize = bp_end;
        let mut segments: Vec<CurveSegment> = Vec::new();
        for i in 0..n_segs
            invariant
                n_segs == segment_count(blob@),
                cursor == segment_start(blob@, i as nat),
                cursor <= blob@.len(),
                segments@.len() == i,
                forall|j: int|
                    0 <= j < i ==> #[trigger] segments@[j]@ == segment_at(
                        blob@,
                        segment_start(blob@, j as nat),
                    ),
                curve_error(blob@) == segments_error(blob@, i as nat),
        {
            match read_segment(blob, cursor) {
                Err(e) => return Err(e),
                Ok((segment, end)) => {
                    assert(segment_start(blob@, (i + 1) as nat) == segment_end(
                        blob@,
                        segment_start(blob@, i as nat),
                    ));
                    segments.push(segment);
                    cursor = end;
                },
            }
        }
        let r = SegmentedCurve { breakpoints, segments };
        assert(r@.segments =~= curve_of(blob@).segments);
        Ok(r)
    }
}

} // verus!
