//! The bytes that a segmented curve is stored as, and what the reader makes of them.

use crate::bytes::{be16, be32, be32_list};
use crate::iccmax::segmented_curve::{
    body_count, curve_error, curve_of, segment_at, segment_count, segment_end, segment_error,
    segment_start, segments_error, SegmentView, SegmentedCurveView, SIG_CURF, SIG_PARF, SIG_SAMF,
};
use vstd::prelude::*;

verus! {

/// The two bytes of a 16-bit number, high byte first.
pub open spec fn bytes16(v: u16) -> Seq<u8> {
    seq![(v / 0x100) as u8, (v % 0x100) as u8]
}

/// The four bytes of a 32-bit number, high byte first.
pub open spec fn bytes32(v: u32) -> Seq<u8> {
    seq![
        (v / 0x100_0000) as u8,
        (v / 0x1_0000 % 0x100) as u8,
        (v / 0x100 % 0x100) as u8,
        (v % 0x100) as u8,
    ]
}

/// The bytes of 32-bit numbers one after the other.
pub open spec fn bytes32_list(list: Seq<u32>) -> Seq<u8> {
    Seq::new(4 * list.len(), |k: int| bytes32(list[k / 4])[k % 4])
}

/// The first twelve bytes of a segment.
pub open spec fn segment_header(s: SegmentView) -> Seq<u8> {
    let reserved = seq![0u8, 0u8, 0u8, 0u8];
    match s {
        SegmentView::Parametric { func_type, params } => bytes32(SIG_PARF) + reserved + bytes16(
            func_type,
        ) + seq![0u8, 0u8],
        SegmentView::Sampled(samples) => bytes32(SIG_SAMF) + reserved + bytes32(
            samples.len() as u32,
        ),
    }
}

/// The numbers of a segment.
pub open spec fn segment_body(s: SegmentView) -> Seq<u32> {
    match s {
        SegmentView::Parametric { func_type, params } => params,
        SegmentView::Sampled(samples) => samples,
    }
}

/// The bytes of a segment.
pub open spec fn segment_bytes(s: SegmentView) -> Seq<u8> {
    segment_header(s) + bytes32_list(segment_body(s))
}

/// The bytes of the first `n` segments.
pub open spec fn segments_bytes(segments: Seq<SegmentView>, n: nat) -> Seq<u8>
    decreases n,
{
    if n == 0 {
        seq![]
    } else {
        segments_bytes(segments, (n - 1) as nat) + segment_bytes(segments[n - 1])
    }
}

/// The bytes of a curve before its segments.
pub open spec fn curve_header(c: SegmentedCurveView) -> Seq<u8> {
    bytes32(SIG_CURF) + seq![0u8, 0u8, 0u8, 0u8] + bytes16(c.segments.len() as u16) + seq![0u8, 0u8]
        + bytes32_list(c.breakpoints)
}

/// The bytes of a curve.
pub open spec fn curve_bytes(c: SegmentedCurveView) -> Seq<u8> {
    curve_header(c) + segments_bytes(c.segments, c.segments.len())
}

/// Whether a curve can be stored: it is well-formed, its segments can be counted in 16 bits and
/// the samples of each in 32 bits.
pub open spec fn storable(c: SegmentedCurveView) -> bool {
    &&& c.well_formed()
    &&& c.segments.len() <= u16::MAX
    &&& forall|i: int|
        0 <= i < c.segments.len() ==> segment_body(#[trigger] c.segments[i]).len() <= u32::MAX
}

/// Four bytes of a number read as the number.
pub proof fn lemma_read32(s: Seq<u8>, i: int, v: u32)
    requires
        0 <= i,
        i + 4 <= s.len(),
        s[i] == bytes32(v)[0],
        s[i + 1] == bytes32(v)[1],
        s[i + 2] == bytes32(v)[2],
        s[i + 3] == bytes32(v)[3],
    ensures
        be32(s, i) == v,
{
}

/// Stored numbers read as the numbers.
pub proof fn lemma_read_list(s: Seq<u8>, i: int, list: Seq<u32>)
    requires
        0 <= i,
        i + 4 * list.len() <= s.len(),
        forall|k: int| 0 <= k < 4 * list.len() ==> #[trigger] s[i + k] == bytes32_list(list)[k],
    ensures
        be32_list(s, i, list.len()) == list,
{
    assert forall|j: int| 0 <= j < list.len() implies be32(s, i + 4 * j) == #[trigger] list[j] by {
        assert(s[i + 4 * j] == bytes32_list(list)[4 * j]);
        assert(s[i + (4 * j + 1)] == bytes32_list(list)[4 * j + 1]);
        assert(s[i + (4 * j + 2)] == bytes32_list(list)[4 * j + 2]);
        assert(s[i + (4 * j + 3)] == bytes32_list(list)[4 * j + 3]);
        lemma_read32(s, i + 4 * j, list[j]);
    }
    assert(be32_list(s, i, list.len()) =~= list);
}

/// Where the bytes of a segment stand, the segment is read and nothing else.
proof fn lemma_read_segment(s: Seq<u8>, at: int, seg: SegmentView)
    requires
        0 <= at,
        at + segment_bytes(seg).len() <= s.len(),
        s.len() <= usize::MAX,
        seg.well_formed(),
        segment_body(seg).len() <= u32::MAX,
        s.subrange(at, at + segment_bytes(seg).len()) == segment_bytes(seg),
    ensures
        segment_error(s, at) is None,
        segment_at(s, at) == seg,
        segment_end(s, at) == at + segment_bytes(seg).len(),
{
    let enc = segment_bytes(seg);
    let body = segment_body(seg);
    assert(segment_header(seg).len() == 12);
    assert forall|k: int| 0 <= k < enc.len() implies #[trigger] s[at + k] == enc[k] by {
        assert(s.subrange(at, at + enc.len())[k] == s[at + k]);
    }
    let sig = match seg {
        SegmentView::Parametric { .. } => SIG_PARF,
        SegmentView::Sampled(_) => SIG_SAMF,
    };
    assert(s[at + 0] == enc[0] && s[at + 1] == enc[1]);
    assert(s[at + 2] == enc[2] && s[at + 3] == enc[3]);
    lemma_read32(s, at, sig);
    assert(s[at + 8] == enc[8] && s[at + 9] == enc[9] && s[at + 10] == enc[10] && s[at + 11]
        == enc[11]);
    match seg {
        SegmentView::Parametric { func_type, params } => {
            assert(be16(s, at + 8) == func_type);
        },
        SegmentView::Sampled(samples) => {
            lemma_read32(s, at + 8, samples.len() as u32);
        },
    }
    assert(body_count(s, at) == body.len());
    assert forall|k: int| 0 <= k < 4 * body.len() implies #[trigger] s[at + 12 + k]
        == bytes32_list(body)[k] by {
        assert(s[at + (12 + k)] == enc[12 + k]);
    }
    lemma_read_list(s, at + 12, body);
}

/// The bytes of the segments before one stand before it.
proof fn lemma_segments_prefix(segments: Seq<SegmentView>, i: nat, n: nat)
    requires
        i <= n,
    ensures
        segments_bytes(segments, i).len() <= segments_bytes(segments, n).len(),
        segments_bytes(segments, n).take(segments_bytes(segments, i).len() as int)
            == segments_bytes(segments, i),
    decreases n,
{
    let a = segments_bytes(segments, i);
    let b = segments_bytes(segments, n);
    if i < n {
        lemma_segments_prefix(segments, i, (n - 1) as nat);
        let c = segments_bytes(segments, (n - 1) as nat);
        assert(b.take(a.len() as int) =~= c.take(a.len() as int));
    } else {
        assert(b.take(a.len() as int) =~= a);
    }
}

/// The bytes of a segment stand in those of the curve behind the segments before it.
proof fn lemma_segment_in_place(c: SegmentedCurveView, i: nat)
    requires
        i < c.segments.len(),
    ensures
        ({
            let at = curve_header(c).len() + segments_bytes(c.segments, i).len();
            let seg = segment_bytes(c.segments[i as int]);
            &&& at + seg.len() <= curve_bytes(c).len()
            &&& curve_bytes(c).subrange(at as int, (at + seg.len()) as int) == seg
        }),
{
    let blob = curve_bytes(c);
    let before = segments_bytes(c.segments, i);
    let through = segments_bytes(c.segments, i + 1);
    let all = segments_bytes(c.segments, c.segments.len());
    let seg = segment_bytes(c.segments[i as int]);
    let h = curve_header(c).len() as int;
    let at = h + before.len();
    lemma_segments_prefix(c.segments, i + 1, c.segments.len());
    assert(through == before + seg);
    assert forall|k: int| 0 <= k < seg.len() implies #[trigger] blob.subrange(
        at,
        at + seg.len(),
    )[k] == seg[k] by {
        let q = before.len() + k;
        assert(blob[h + q] == all[q]);
        assert(all.take(through.len() as int)[q] == through[q]);
    }
    assert(blob.subrange(at, at + seg.len()) =~= seg);
}

/// A segment of stored bytes is read as what it is where it was put.
proof fn lemma_read_one(c: SegmentedCurveView, i: nat)
    requires
        storable(c),
        curve_bytes(c).len() <= usize::MAX,
        i < c.segments.len(),
    ensures
        ({
            let at = curve_header(c).len() + segments_bytes(c.segments, i).len();
            &&& segment_error(curve_bytes(c), at as int) is None
            &&& segment_at(curve_bytes(c), at as int) == c.segments[i as int]
            &&& segment_end(curve_bytes(c), at as int) == curve_header(c).len() + segments_bytes(
                c.segments,
                i + 1,
            ).len()
        }),
{
    let at = curve_header(c).len() + segments_bytes(c.segments, i).len();
    lemma_segment_in_place(c, i);
    lemma_read_segment(curve_bytes(c), at as int, c.segments[i as int]);
}

/// The segments of stored bytes start where they were put.
proof fn lemma_segment_starts(c: SegmentedCurveView, i: nat)
    requires
        storable(c),
        curve_bytes(c).len() <= usize::MAX,
        segment_count(curve_bytes(c)) == c.segments.len(),
        i <= c.segments.len(),
    ensures
        segment_start(curve_bytes(c), i) == curve_header(c).len() + segments_bytes(
            c.segments,
            i,
        ).len(),
    decreases i,
{
    if i > 0 {
        lemma_segment_starts(c, (i - 1) as nat);
        lemma_read_one(c, (i - 1) as nat);
    }
}

/// No segment is in error where each of them is not.
proof fn lemma_no_segments_error(blob: Seq<u8>, i: nat)
    requires
        forall|j: nat|
            j < segment_count(blob) ==> segment_error(
                blob,
                #[trigger] segment_start(blob, j),
            ) is None,
    ensures
        segments_error(blob, i) is None,
    decreases segment_count(blob) - i,
{
    if i < segment_count(blob) {
        assert(segment_error(blob, segment_start(blob, i)) is None);
        lemma_no_segments_error(blob, i + 1);
    }
}

/// Where every segment is read as what it is, the segments are read as a whole.
proof fn lemma_segments_as_a_whole(blob: Seq<u8>, segments: Seq<SegmentView>)
    requires
        segment_count(blob) == segments.len(),
        forall|j: nat|
            #![trigger segment_start(blob, j)]
            j < segments.len() ==> {
                &&& segment_error(blob, segment_start(blob, j)) is None
                &&& segment_at(blob, segment_start(blob, j)) == segments[j as int]
            },
    ensures
        segments_error(blob, 0) is None,
        curve_of(blob).segments == segments,
{
    lemma_no_segments_error(blob, 0);
    assert forall|j: int| 0 <= j < segments.len() implies #[trigger] curve_of(blob).segments[j]
        == segments[j] by {
        assert(segment_at(blob, segment_start(blob, j as nat)) == segments[j]);
    }
    assert(curve_of(blob).segments =~= segments);
}

/// The header of stored bytes is read as what it is.
proof fn lemma_read_header(c: SegmentedCurveView)
    requires
        storable(c),
    ensures
        ({
            let blob = curve_bytes(c);
            &&& blob.len() >= curve_header(c).len() == 12 + 4 * c.breakpoints.len()
            &&& be32(blob, 0) == SIG_CURF
            &&& segment_count(blob) == c.segments.len()
            &&& be32_list(blob, 12, c.breakpoints.len()) == c.breakpoints
        }),
{
    let blob = curve_bytes(c);
    let h = curve_header(c);
    assert(h.len() == 12 + 4 * c.breakpoints.len());
    assert forall|k: int| 0 <= k < h.len() implies #[trigger] blob[k] == h[k] by {}
    assert(blob[0] == h[0] && blob[1] == h[1] && blob[2] == h[2] && blob[3] == h[3]);
    lemma_read32(blob, 0, SIG_CURF);
    assert(blob[8] == h[8] && blob[9] == h[9]);
    assert(segment_count(blob) == c.segments.len());
    assert forall|k: int| 0 <= k < 4 * c.breakpoints.len() implies #[trigger] blob[12 + k]
        == bytes32_list(c.breakpoints)[k] by {
        assert(blob[12 + k] == h[12 + k]);
    }
    lemma_read_list(blob, 12, c.breakpoints);
}

/// Every curve that can be stored is read back from its bytes.
pub proof fn lemma_stored_curve_is_read_back(c: SegmentedCurveView)
    requires
        storable(c),
        curve_bytes(c).len() <= usize::MAX,
    ensures
        curve_error(curve_bytes(c)) is None,
        curve_of(curve_bytes(c)) == c,
{
    lemma_read_header(c);
    let blob = curve_bytes(c);
    assert forall|j: nat|
        #![trigger segment_start(blob, j)]
        j < c.segments.len() implies {
        &&& segment_error(blob, segment_start(blob, j)) is None
        &&& segment_at(blob, segment_start(blob, j)) == c.segments[j as int]
    } by {
        lemma_segment_starts(c, j);
        lemma_read_one(c, j);
    }
    lemma_segments_as_a_whole(blob, c.segments);
}

/// The numbers of a blob that others begin with are theirs too.
proof fn lemma_prefix_numbers(p: Seq<u8>, b: Seq<u8>, i: int)
    requires
        p.is_prefix_of(b),
        0 <= i,
    ensures
        i + 2 <= p.len() ==> be16(b, i) == be16(p, i),
        i + 4 <= p.len() ==> be32(b, i) == be32(p, i),
{
    assert forall|k: int| 0 <= k < p.len() implies #[trigger] b[k] == p[k] by {
        assert(b.subrange(0, p.len() as int)[k] == b[k]);
    }
}

/// A segment that is read from a blob is read from every longer one that begins with it.
proof fn lemma_prefix_segment(p: Seq<u8>, b: Seq<u8>, at: int)
    requires
        p.is_prefix_of(b),
        b.len() <= usize::MAX,
        0 <= at,
        segment_error(p, at) is None,
    ensures
        segment_error(b, at) is None,
        segment_at(b, at) == segment_at(p, at),
        segment_end(b, at) == segment_end(p, at) <= p.len(),
{
    lemma_prefix_numbers(p, b, at);
    lemma_prefix_numbers(p, b, at + 8);
    let n = body_count(p, at);
    assert(body_count(b, at) == n);
    assert forall|k: int| 0 <= k < n implies #[trigger] be32_list(b, at + 12, n)[k] == be32_list(
        p,
        at + 12,
        n,
    )[k] by {
        lemma_prefix_numbers(p, b, at + 12 + 4 * k);
    }
    assert(be32_list(b, at + 12, n) =~= be32_list(p, at + 12, n));
}

/// Where the segments from one on are not in error, none of them is.
proof fn lemma_each_segment_is_fine(blob: Seq<u8>, i: nat, j: nat)
    requires
        segments_error(blob, i) is None,
        i <= j < segment_count(blob),
    ensures
        segment_error(blob, segment_start(blob, j)) is None,
    decreases segment_count(blob) - i,
{
    if i < j {
        lemma_each_segment_is_fine(blob, i + 1, j);
    }
}

/// The segments of a blob that is a curve start at the same places in every longer one that
/// begins with it.
proof fn lemma_prefix_starts(p: Seq<u8>, b: Seq<u8>, i: nat)
    requires
        p.is_prefix_of(b),
        b.len() <= usize::MAX,
        curve_error(p) is None,
        i <= segment_count(p),
    ensures
        segment_count(b) == segment_count(p),
        segment_start(b, i) == segment_start(p, i),
        0 <= segment_start(p, i) <= p.len(),
    decreases i,
{
    lemma_prefix_numbers(p, b, 8);
    if i > 0 {
        let before = (i - 1) as nat;
        lemma_prefix_starts(p, b, before);
        lemma_each_segment_is_fine(p, 0, before);
        lemma_prefix_segment(p, b, segment_start(p, before));
    }
}

/// A curve ends with its last segment: bytes that follow change nothing, and a blob cut off
/// before that end is no curve.
pub proof fn lemma_curve_ends_with_its_last_segment(p: Seq<u8>, b: Seq<u8>)
    requires
        p.is_prefix_of(b),
        b.len() <= usize::MAX,
        curve_error(p) is None,
    ensures
        curve_error(b) is None,
        curve_of(b) == curve_of(p),
        segment_start(b, segment_count(b)) <= p.len(),
{
    let n = segment_count(p);
    lemma_prefix_numbers(p, b, 0);
    lemma_prefix_starts(p, b, 0);
    lemma_prefix_starts(p, b, n);
    assert forall|j: nat|
        #![trigger segment_start(b, j)]
        j < n implies {
        &&& segment_error(b, segment_start(b, j)) is None
        &&& segment_at(b, segment_start(b, j)) == curve_of(p).segments[j as int]
    } by {
        lemma_prefix_starts(p, b, j);
        lemma_each_segment_is_fine(p, 0, j);
        lemma_prefix_segment(p, b, segment_start(p, j));
    }
    lemma_segments_as_a_whole(b, curve_of(p).segments);
    let m = (n - 1) as nat;
    assert forall|k: int| 0 <= k < m implies #[trigger] be32_list(b, 12, m)[k] == be32_list(
        p,
        12,
        m,
    )[k] by {
        lemma_prefix_numbers(p, b, 12 + 4 * k);
    }
    assert(be32_list(b, 12, m) =~= be32_list(p, 12, m));
}

} // verus!
