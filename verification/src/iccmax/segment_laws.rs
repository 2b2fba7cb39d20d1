//! What holds of the reader of segmented curves, for all bytes.

use crate::bytes::{be16, be32, lemma_numbers_are_stored_high_byte_first};
use crate::err::CmsError;
use crate::iccmax::element_laws::starts_with;
use crate::iccmax::segmented_curve::{
    body_count, curve_error, curve_of, segment_at, segment_end, segment_error, segment_start,
    segments_error, SegmentView, SIG_PARF, SIG_SAMF,
};
use vstd::prelude::*;

verus! {

/// The four bytes at `at` spell `parf`.
pub open spec fn is_parf(b: Seq<u8>, at: int) -> bool {
    b[at] == 0x70 && b[at + 1] == 0x61 && b[at + 2] == 0x72 && b[at + 3] == 0x66
}

/// The four bytes at `at` spell `samf`.
pub open spec fn is_samf(b: Seq<u8>, at: int) -> bool {
    b[at] == 0x73 && b[at + 1] == 0x61 && b[at + 2] == 0x6d && b[at + 3] == 0x66
}

/// How many numbers follow the header of twelve bytes of the segment at `at`: a formula of type 0
/// has four, any other formula five, and samples are as many as the header says.
pub open spec fn number_count(b: Seq<u8>, at: int) -> int {
    if is_samf(b, at) {
        be32(b, at + 8) as int
    } else if be16(b, at + 8) == 0 {
        4
    } else {
        5
    }
}

/// A segment stands from `at` to `end`.
pub open spec fn is_segment(b: Seq<u8>, at: int, end: int) -> bool {
    &&& at + 12 <= b.len()
    &&& is_parf(b, at) || is_samf(b, at)
    &&& end == at + 12 + 4 * number_count(b, at)
    &&& end <= b.len()
}

/// The bytes begin as those of a curve do: with the signature, and with the number of its segments,
/// of which there is one at least, at 8. The breakpoints from 12 on are one fewer.
pub open spec fn is_framed(b: Seq<u8>) -> bool {
    &&& b.len() >= 12
    &&& starts_with(b, 0x63, 0x75, 0x72, 0x66)
    &&& be16(b, 8) >= 1
    &&& b.len() >= 8 + 4 * be16(b, 8)
}

/// The first segments stand at the given places: the first one behind the breakpoints, and each
/// further one where the one before it ends.
pub open spec fn stand_at(b: Seq<u8>, places: Seq<int>) -> bool {
    &&& places.len() >= 1
    &&& places[0] == 8 + 4 * be16(b, 8)
    &&& forall|i: int|
        #![trigger places[i]]
        0 <= i < places.len() - 1 ==> is_segment(b, places[i], places[i + 1])
}

/// What stands at a place is told by its bytes.
proof fn lemma_segment_is_told(b: Seq<u8>, at: int, end: int)
    requires
        b.len() <= usize::MAX,
        0 <= at,
    ensures
        is_segment(b, at, end) <==> segment_error(b, at) is None && end == segment_end(b, at),
        at + 12 <= b.len() && is_samf(b, at) && at + 12 + 4 * number_count(b, at) > usize::MAX
            ==> segment_error(b, at) == Some(CmsError::OverflowingError),
        !(at + 12 <= b.len() && is_samf(b, at) && at + 12 + 4 * number_count(b, at) > usize::MAX)
            && !is_segment(b, at, at + 12 + 4 * number_count(b, at)) ==> segment_error(b, at)
            == Some(CmsError::InvalidProfile),
{
    lemma_numbers_are_stored_high_byte_first(b, at);
    assert(is_parf(b, at) <==> be32(b, at) == SIG_PARF);
    assert(is_samf(b, at) <==> be32(b, at) == SIG_SAMF);
}

/// Segments that stand at the given places start there.
proof fn lemma_places_are_starts(b: Seq<u8>, places: Seq<int>, i: nat)
    requires
        b.len() <= usize::MAX,
        is_framed(b),
        stand_at(b, places),
        i < places.len(),
    ensures
        segment_start(b, i) == places[i as int],
        places[i as int] >= 12,
        places[i as int] <= b.len(),
    decreases i,
{
    if i > 0 {
        let m = (i - 1) as nat;
        lemma_places_are_starts(b, places, m);
        assert(is_segment(b, places[m as int], places[i as int]));
        lemma_segment_is_told(b, places[m as int], places[i as int]);
    }
}

/// The bytes of a curve begin as they have to.
proof fn lemma_frame_is_told(b: Seq<u8>)
    ensures
        is_framed(b) ==> curve_error(b) == segments_error(b, 0),
        !is_framed(b) ==> curve_error(b) == Some(CmsError::InvalidProfile),
{
    lemma_numbers_are_stored_high_byte_first(b, 0);
}

/// Segments that are not in error up to one leave it to the rest.
proof fn lemma_sound_segments(b: Seq<u8>, places: Seq<int>, i: nat)
    requires
        b.len() <= usize::MAX,
        is_framed(b),
        stand_at(b, places),
        i < places.len() <= be16(b, 8) + 1,
    ensures
        segments_error(b, 0) == segments_error(b, i),
    decreases i,
{
    if i > 0 {
        let m = (i - 1) as nat;
        lemma_sound_segments(b, places, m);
        lemma_places_are_starts(b, places, m);
        assert(is_segment(b, places[m as int], places[i as int]));
        lemma_segment_is_told(b, places[m as int], places[i as int]);
    }
}

/// Bytes that are framed as a curve, and in which as many segments follow one another as they say,
/// are that curve: its breakpoints are the numbers from 12 on, and each segment is what stands at
/// its place, with the numbers that follow its header of twelve bytes.
pub proof fn lemma_segments_in_a_row_are_a_curve(b: Seq<u8>, places: Seq<int>, i: int, k: int)
    requires
        b.len() <= usize::MAX,
        is_framed(b),
        stand_at(b, places),
        places.len() == be16(b, 8) + 1,
        0 <= i < be16(b, 8),
    ensures
        curve_error(b) is None,
        curve_of(b).breakpoints.len() == be16(b, 8) - 1,
        0 <= k < be16(b, 8) - 1 ==> curve_of(b).breakpoints[k] == be32(b, 12 + 4 * k),
        curve_of(b).segments.len() == be16(b, 8),
        ({
            let at = places[i];
            let n = number_count(b, at);
            match curve_of(b).segments[i] {
                SegmentView::Parametric { func_type, params } => {
                    &&& is_parf(b, at)
                    &&& func_type == be16(b, at + 8)
                    &&& params.len() == n
                    &&& 0 <= k < n ==> params[k] == be32(b, at + 12 + 4 * k)
                },
                SegmentView::Sampled(samples) => {
                    &&& is_samf(b, at)
                    &&& samples.len() == n
                    &&& 0 <= k < n ==> samples[k] == be32(b, at + 12 + 4 * k)
                },
            }
        }),
{
    let n = be16(b, 8) as nat;
    lemma_frame_is_told(b);
    lemma_sound_segments(b, places, n);
    lemma_places_are_starts(b, places, i as nat);
    let at = places[i];
    assert(is_segment(b, at, places[i + 1]));
    lemma_segment_is_told(b, at, places[i + 1]);
    lemma_numbers_are_stored_high_byte_first(b, at);
    assert(curve_of(b).segments[i] == segment_at(b, at));
    assert(body_count(b, at) == number_count(b, at));
}

/// The places where the first segments of a curve start.
spec fn starts(b: Seq<u8>, n: nat) -> Seq<int> {
    Seq::new(n, |i: int| segment_start(b, i as nat))
}

/// The segments before one that is not in error stand where they start.
proof fn lemma_starts_stand(b: Seq<u8>, i: nat)
    requires
        b.len() <= usize::MAX,
        is_framed(b),
        curve_error(b) is None,
        i <= be16(b, 8),
    ensures
        stand_at(b, starts(b, i + 1)),
        segments_error(b, i) is None,
    decreases i,
{
    lemma_frame_is_told(b);
    if i > 0 {
        let m = (i - 1) as nat;
        lemma_starts_stand(b, m);
        let at = segment_start(b, m);
        lemma_places_are_starts(b, starts(b, i), m);
        lemma_segment_is_told(b, at, segment_start(b, i));
        assert forall|j: int|
            #![trigger starts(b, i + 1)[j]]
            0 <= j < i implies is_segment(b, starts(b, i + 1)[j], starts(b, i + 1)[j + 1]) by {
            if j < m {
                assert(starts(b, i)[j] == starts(b, i + 1)[j]);
            }
        }
    }
}

/// What is read as a curve is framed as one, and as many segments follow one another in it as it
/// says.
pub proof fn lemma_curve_is_segments_in_a_row(b: Seq<u8>)
    requires
        b.len() <= usize::MAX,
        curve_error(b) is None,
    ensures
        is_framed(b),
        exists|places: Seq<int>| #[trigger]
            stand_at(b, places) && places.len() == be16(b, 8) + 1,
{
    lemma_frame_is_told(b);
    let n = be16(b, 8) as nat;
    lemma_starts_stand(b, n);
    assert(stand_at(b, starts(b, n + 1)) && starts(b, n + 1).len() == n + 1);
}

/// Bytes that are not framed as a curve are an invalid profile. Else the first place where no
/// segment stands tells what is wrong: samples whose end cannot be counted are an overflow, and
/// anything else is an invalid profile.
pub proof fn lemma_first_broken_segment_counts(b: Seq<u8>, places: Seq<int>)
    requires
        b.len() <= usize::MAX,
    ensures
        !is_framed(b) ==> curve_error(b) == Some(CmsError::InvalidProfile),
        is_framed(b) && stand_at(b, places) && places.len() <= be16(b, 8) ==> {
            let at = places.last();
            let end = at + 12 + 4 * number_count(b, at);
            !is_segment(b, at, end) ==> curve_error(b) == Some(
                if at + 12 <= b.len() && is_samf(b, at) && end > usize::MAX {
                    CmsError::OverflowingError
                } else {
                    CmsError::InvalidProfile
                },
            )
        },
{
    lemma_frame_is_told(b);
    if is_framed(b) && stand_at(b, places) && places.len() <= be16(b, 8) {
        let at = places.last();
        let i = (places.len() - 1) as nat;
        lemma_places_are_starts(b, places, i);
        lemma_sound_segments(b, places, i);
        lemma_segment_is_told(b, at, at + 12 + 4 * number_count(b, at));
    }
}

} // verus!
