//! What the views show: the fields of a value, each under its own name.

use crate::err::CmsError;
use crate::iccmax::cept::{cept_view, CeptMatrixShaper, CeptView};
use crate::iccmax::elements::{curve_views, CurveSource, CurveSourceView, Matrix3d, Vector3d};
use crate::iccmax::mpet::{mpet_view, MpetMatrixShaper, MpetView};
use crate::iccmax::segmented_curve::{CurveSegment, SegmentView, SegmentedCurve};
use crate::iccmax::tag_struct::TagStruct;
use vstd::prelude::*;

verus! {

/// A matrix shows its rows and a vector its numbers, each where it is held.
pub proof fn lemma_matrix_shows_its_rows(m: Matrix3d, v: Vector3d, r: int, c: int)
    requires
        0 <= r < 3,
        0 <= c < 3,
    ensures
        m@.len() == 3,
        m@[r].len() == 3,
        m@[r][c] == m.v@[r]@[c],
        v@.len() == 3,
        v@[c] == v.v@[c],
{
}

/// A segmented curve shows its breakpoints and its segments, each with its own numbers.
pub proof fn lemma_curve_shows_its_segments(curve: SegmentedCurve, i: int)
    requires
        0 <= i < curve.segments@.len(),
    ensures
        curve@.breakpoints == curve.breakpoints@,
        curve@.segments.len() == curve.segments@.len(),
        match curve.segments@[i] {
            CurveSegment::Parametric { func_type, params } => curve@.segments[i]
                == (SegmentView::Parametric { func_type, params: params@ }),
            CurveSegment::Sampled(samples) => curve@.segments[i] == SegmentView::Sampled(samples@),
        },
{
}

/// Tone curves show what they are, one by one.
pub proof fn lemma_tone_curves_show_what_they_are(curves: Seq<CurveSource>, i: int)
    requires
        0 <= i < curves.len(),
    ensures
        curve_views(curves).len() == curves.len(),
        match curves[i] {
            CurveSource::Identity => curve_views(curves)[i] == CurveSourceView::Identity,
            CurveSource::Segmented { curve, invert } => curve_views(curves)[i]
                == (CurveSourceView::Segmented { curve: curve@, invert }),
        },
{
}

/// A matrix shaper shows its curves, its matrix, its offset and their order, and a result shows
/// what came of it.
pub proof fn lemma_shaper_shows_its_fields(shaper: MpetMatrixShaper, e: CmsError)
    ensures
        shaper@.curves == curve_views(shaper.curves@),
        shaper@.matrix == shaper.matrix@,
        shaper@.offset == shaper.offset@,
        shaper@.curves_first == shaper.curves_first,
        mpet_view(Ok(Some(shaper))) == Ok::<Option<MpetView>, CmsError>(Some(shaper@)),
        mpet_view(Ok(None)) == Ok::<Option<MpetView>, CmsError>(None),
        mpet_view(Err(e)) == Err::<Option<MpetView>, CmsError>(e),
{
}

/// A colour encoding shows each chromaticity under its own name, its tone curve and its name, and a
/// result shows what came of it.
pub proof fn lemma_encoding_shows_its_fields(shaper: CeptMatrixShaper, e: CmsError)
    ensures
        shaper@.red_xy == shaper.red_xy,
        shaper@.green_xy == shaper.green_xy,
        shaper@.blue_xy == shaper.blue_xy,
        shaper@.white_xy == shaper.white_xy,
        shaper@.trc == shaper.trc@,
        shaper@.reference_name is Some <==> shaper.reference_name is Some,
        shaper.reference_name matches Some(name) ==> shaper@.reference_name == Some(name@),
        cept_view(Ok(Some(shaper))) == Ok::<Option<CeptView>, CmsError>(Some(shaper@)),
        cept_view(Ok(None)) == Ok::<Option<CeptView>, CmsError>(None),
        cept_view(Err(e)) == Err::<Option<CeptView>, CmsError>(e),
{
}

/// A tag structure shows its kind, its bytes and its rows.
pub proof fn lemma_structure_shows_its_rows(ts: TagStruct, i: int)
    requires
        0 <= i < ts.entries@.len(),
    ensures
        ts@.struct_id == ts.struct_id@,
        ts@.blob == ts.blob@,
        ts@.entries.len() == ts.entries@.len(),
        ts@.entries[i].sig == ts.entries@[i].sig@,
        ts@.entries[i].offset == ts.entries@[i].offset,
        ts@.entries[i].size == ts.entries@[i].size,
{
}

} // verus!
