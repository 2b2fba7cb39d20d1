//! The bytes that a matrix shaper is stored as in an `mpet` tag, and what the reader makes of them.

use crate::bytes::{be16, be32, be32_list, range_error, range_of};
use crate::err::CmsError;
use crate::iccmax::curve_bytes::{
    bytes16, bytes32, bytes32_list, curve_bytes, lemma_read32, lemma_read_list,
    lemma_stored_curve_is_read_back, storable,
};
use crate::iccmax::elements::{
    cvst_blob, cvst_count, cvst_curve, cvst_curve_error, cvst_curves_error, cvst_error, cvst_of,
    is_matf, matf_matrix, matf_offset, CurveSourceView, SIG_CVST, SIG_MATF,
};
use crate::iccmax::mpet::{
    chain_of, curves_and_matrix, curves_only, element_blob, element_error, is_short_rgb_chain,
    matrix_only, mpet_of, MpetView, SIG_MPET,
};
use crate::iccmax::segmented_curve::{SegmentedCurveView, SIG_CURF};
use vstd::prelude::*;

verus! {

/// Four zeros.
pub open spec fn reserved() -> Seq<u8> {
    seq![0u8, 0u8, 0u8, 0u8]
}

/// The first `n` parts one after the other.
pub open spec fn joined(parts: Seq<Seq<u8>>, n: nat) -> Seq<u8>
    decreases n,
{
    if n == 0 {
        seq![]
    } else {
        joined(parts, (n - 1) as nat) + parts[n - 1]
    }
}

/// Where each part stands and how long it is, when the parts follow one another from `start` on.
pub open spec fn places(parts: Seq<Seq<u8>>, start: int) -> Seq<u32> {
    Seq::new(
        2 * parts.len(),
        |k: int|
            if k % 2 == 0 {
                (start + joined(parts, (k / 2) as nat).len()) as u32
            } else {
                parts[k / 2].len() as u32
            },
    )
}

/// A header, the table of the places of some parts, and the parts.
#[verifier::opaque]
pub open spec fn packed(header: Seq<u8>, parts: Seq<Seq<u8>>) -> Seq<u8> {
    header + bytes32_list(places(parts, (header.len() + 8 * parts.len()) as int)) + joined(
        parts,
        parts.len(),
    )
}

/// The bytes of a matrix and its offset.
pub open spec fn matf_bytes(matrix: Seq<Seq<u32>>, offset: Seq<u32>) -> Seq<u8> {
    bytes32(SIG_MATF) + reserved() + bytes16(3) + bytes16(3) + bytes32_list(
        matrix[0] + matrix[1] + matrix[2] + offset,
    )
}

/// The bytes of each of a list of curves.
pub open spec fn each_curve(curves: Seq<SegmentedCurveView>) -> Seq<Seq<u8>> {
    curves.map_values(|c: SegmentedCurveView| curve_bytes(c))
}

/// The bytes of a curve set.
pub open spec fn cvst_bytes(curves: Seq<SegmentedCurveView>) -> Seq<u8> {
    let n = curves.len() as u16;
    packed(bytes32(SIG_CVST) + reserved() + bytes16(n) + bytes16(n), each_curve(curves))
}

/// The bytes of a chain of elements with three channels in and three out.
pub open spec fn mpet_bytes(elements: Seq<Seq<u8>>) -> Seq<u8> {
    packed(
        bytes32(SIG_MPET) + reserved() + bytes16(3) + bytes16(3) + bytes32(elements.len() as u32),
        elements,
    )
}

/// A matrix has three rows of three, and an offset three numbers.
pub open spec fn is_three_by_three(matrix: Seq<Seq<u32>>, offset: Seq<u32>) -> bool {
    &&& matrix.len() == 3
    &&& matrix[0].len() == 3 && matrix[1].len() == 3 && matrix[2].len() == 3
    &&& offset.len() == 3
}

/// Whether curves can be stored as a set: each of them can be, there are no more than sixteen, and
/// a position in the set can be counted.
pub open spec fn storable_set(curves: Seq<SegmentedCurveView>) -> bool {
    &&& 1 <= curves.len() <= 16
    &&& cvst_bytes(curves).len() <= u32::MAX
    &&& cvst_bytes(curves).len() <= usize::MAX
    &&& forall|i: int| 0 <= i < curves.len() ==> #[trigger] storable(curves[i])
}

/// The tone curves that stored curves are read as.
pub open spec fn as_sources(curves: Seq<SegmentedCurveView>) -> Seq<CurveSourceView> {
    curves.map_values(
        |c: SegmentedCurveView| CurveSourceView::Segmented { curve: c, invert: false },
    )
}

/// The parts before one stand before it.
proof fn lemma_joined_prefix(parts: Seq<Seq<u8>>, i: nat, n: nat)
    requires
        i <= n,
    ensures
        joined(parts, i).len() <= joined(parts, n).len(),
        joined(parts, n).take(joined(parts, i).len() as int) == joined(parts, i),
    decreases n,
{
    let a = joined(parts, i);
    let b = joined(parts, n);
    if i < n {
        lemma_joined_prefix(parts, i, (n - 1) as nat);
        let c = joined(parts, (n - 1) as nat);
        assert(b.take(a.len() as int) =~= c.take(a.len() as int));
    } else {
        assert(b.take(a.len() as int) =~= a);
    }
}

/// A number of a stored list is read where it stands.
pub proof fn lemma_read_listed(pre: Seq<u8>, list: Seq<u32>, post: Seq<u8>, k: int)
    requires
        0 <= k < list.len(),
    ensures
        be32(pre + bytes32_list(list) + post, pre.len() + 4 * k) == list[k],
{
    let s = pre + bytes32_list(list) + post;
    let h = pre.len() as int;
    assert forall|j: int| 0 <= j < 4 * list.len() implies #[trigger] s[h + j] == bytes32_list(
        list,
    )[j] by {}
    lemma_read_list(s, h, list);
    assert(be32_list(s, h, list.len())[k] == list[k]);
}

/// A part stands behind those before it.
proof fn lemma_joined_part(parts: Seq<Seq<u8>>, i: int)
    requires
        0 <= i < parts.len(),
    ensures
        ({
            let at = joined(parts, i as nat).len() as int;
            let all = joined(parts, parts.len());
            &&& at + parts[i].len() <= all.len()
            &&& all.subrange(at, at + parts[i].len()) == parts[i]
        }),
{
    let all = joined(parts, parts.len());
    let before = joined(parts, i as nat);
    let through = joined(parts, (i + 1) as nat);
    let at = before.len() as int;
    lemma_joined_prefix(parts, (i + 1) as nat, parts.len());
    assert(through == before + parts[i]);
    assert forall|k: int| 0 <= k < parts[i].len() implies #[trigger] all.subrange(
        at,
        at + parts[i].len(),
    )[k] == parts[i][k] by {
        assert(all.take(through.len() as int)[at + k] == through[at + k]);
    }
    assert(all.subrange(at, at + parts[i].len()) =~= parts[i]);
}

/// What stands in the last of three pieces stands as far on in the whole.
proof fn lemma_range_behind(pre: Seq<u8>, last: Seq<u8>, at: int, size: int)
    requires
        0 <= at,
        0 <= size,
        at + size <= last.len(),
    ensures
        range_of(pre + last, pre.len() + at, size) == last.subrange(at, at + size),
{
    assert(range_of(pre + last, pre.len() + at, size) =~= last.subrange(at, at + size));
}

/// Each part is found where the table says.
proof fn lemma_part_in_place(header: Seq<u8>, parts: Seq<Seq<u8>>, i: int)
    requires
        0 <= i < parts.len(),
        packed(header, parts).len() <= u32::MAX,
    ensures
        ({
            let blob = packed(header, parts);
            let h = header.len() as int;
            let offset = be32(blob, h + 8 * i) as int;
            let size = be32(blob, h + 8 * i + 4) as int;
            &&& h + 8 * parts.len() <= offset
            &&& size == parts[i].len()
            &&& offset + size <= blob.len()
            &&& range_of(blob, offset, size) == parts[i]
        }),
{
    reveal(packed);
    let h = header.len() as int;
    let start = h + 8 * parts.len();
    let table = places(parts, start);
    let all = joined(parts, parts.len());
    let at = joined(parts, i as nat).len() as int;
    let pre = header + bytes32_list(table);
    lemma_joined_part(parts, i);
    lemma_read_listed(header, table, all, 2 * i);
    lemma_read_listed(header, table, all, 2 * i + 1);
    assert(pre.len() == start);
    assert(table[2 * i] == (start + at) as u32);
    assert(table[2 * i + 1] == parts[i].len() as u32);
    lemma_range_behind(pre, all, at, parts[i].len() as int);
}

/// What follows the header does not change it.
proof fn lemma_header_in_place(header: Seq<u8>, parts: Seq<Seq<u8>>)
    ensures
        packed(header, parts).len() >= header.len() + 8 * parts.len(),
        forall|k: int| 0 <= k < header.len() ==> #[trigger] packed(header, parts)[k] == header[k],
{
    reveal(packed);
}

/// The header of a stored matrix is read as what it is.
proof fn lemma_matf_header(list: Seq<u32>)
    requires
        list.len() == 12,
    ensures
        is_matf(
            bytes32(SIG_MATF) + reserved() + bytes16(3) + bytes16(3) + bytes32_list(list),
        ),
{
    let h = bytes32(SIG_MATF) + reserved() + bytes16(3) + bytes16(3);
    let b = h + bytes32_list(list);
    assert(h.len() == 12);
    assert(b[0] == h[0] && b[1] == h[1] && b[2] == h[2] && b[3] == h[3]);
    lemma_read32(b, 0, SIG_MATF);
    assert(b[8] == h[8] && b[9] == h[9] && b[10] == h[10] && b[11] == h[11]);
}

/// Every matrix with its offset is read back from its bytes, entry by entry.
pub proof fn lemma_stored_matrix_is_read_back(matrix: Seq<Seq<u32>>, offset: Seq<u32>)
    requires
        is_three_by_three(matrix, offset),
    ensures
        matf_bytes(matrix, offset).len() == 60,
        is_matf(matf_bytes(matrix, offset)),
        matf_matrix(matf_bytes(matrix, offset)) == matrix,
        matf_offset(matf_bytes(matrix, offset)) == offset,
{
    let b = matf_bytes(matrix, offset);
    let list = matrix[0] + matrix[1] + matrix[2] + offset;
    lemma_matf_header(list);
    assert forall|k: int| 0 <= k < 12 implies be32(b, 12 + 4 * k) == #[trigger] list[k] by {
        let h = bytes32(SIG_MATF) + reserved() + bytes16(3) + bytes16(3);
        lemma_read_listed(h, list, seq![], k);
        assert(h + bytes32_list(list) + seq![] =~= b);
    }
    lemma_rows_of_a_list(b, matrix, offset);
}

/// Twelve numbers in a row are the rows of a matrix and an offset.
proof fn lemma_rows_of_a_list(b: Seq<u8>, matrix: Seq<Seq<u32>>, offset: Seq<u32>)
    requires
        is_three_by_three(matrix, offset),
        ({
            let list = matrix[0] + matrix[1] + matrix[2] + offset;
            forall|k: int| 0 <= k < 12 ==> be32(b, 12 + 4 * k) == #[trigger] list[k]
        }),
    ensures
        matf_matrix(b) == matrix,
        matf_offset(b) == offset,
{
    let list = matrix[0] + matrix[1] + matrix[2] + offset;
    assert forall|r: int, c: int| 0 <= r < 3 && 0 <= c < 3 implies #[trigger] matf_matrix(b)[r][c]
        == matrix[r][c] by {
        assert(list[3 * r + c] == matrix[r][c]);
        assert(12 + 4 * (3 * r + c) == 12 + 12 * r + 4 * c);
    }
    assert(matf_matrix(b)[0] =~= matrix[0]);
    assert(matf_matrix(b)[1] =~= matrix[1]);
    assert(matf_matrix(b)[2] =~= matrix[2]);
    assert(matf_matrix(b) =~= matrix);
    assert forall|c: int| 0 <= c < 3 implies #[trigger] matf_offset(b)[c] == offset[c] by {
        assert(list[9 + c] == offset[c]);
    }
    assert(matf_offset(b) =~= offset);
}

/// Curves of which none is in error are read as a whole.
proof fn lemma_no_curves_error(blob: Seq<u8>, i: int)
    requires
        0 <= i,
        forall|j: int| 0 <= j < cvst_count(blob) ==> #[trigger] cvst_curve_error(blob, j) is None,
    ensures
        cvst_curves_error(blob, i) is None,
    decreases cvst_count(blob) - i,
{
    if i < cvst_count(blob) {
        assert(cvst_curve_error(blob, i) is None);
        lemma_no_curves_error(blob, i + 1);
    }
}

/// The bytes of a curve begin with its signature.
proof fn lemma_curve_signature(c: SegmentedCurveView)
    ensures
        curve_bytes(c).len() >= 12,
        be32(curve_bytes(c), 0) == SIG_CURF,
{
    let b = curve_bytes(c);
    let sig = bytes32(SIG_CURF);
    assert(b[0] == sig[0] && b[1] == sig[1] && b[2] == sig[2] && b[3] == sig[3]);
    lemma_read32(b, 0, SIG_CURF);
}

/// One curve of a stored set is read back.
proof fn lemma_stored_curve_of_a_set(curves: Seq<SegmentedCurveView>, i: int)
    requires
        storable_set(curves),
        0 <= i < curves.len(),
    ensures
        cvst_curve_error(cvst_bytes(curves), i) is None,
        cvst_curve(cvst_bytes(curves), i) == (CurveSourceView::Segmented {
            curve: curves[i],
            invert: false,
        }),
{
    let b = cvst_bytes(curves);
    let n = curves.len() as u16;
    let header = bytes32(SIG_CVST) + reserved() + bytes16(n) + bytes16(n);
    let parts = each_curve(curves);
    assert(header.len() == 12);
    lemma_part_in_place(header, parts, i);
    assert(parts[i] == curve_bytes(curves[i]));
    let offset = be32(b, 12 + 8 * i) as int;
    let size = be32(b, 16 + 8 * i) as int;
    assert(cvst_blob(b, i) == curve_bytes(curves[i]));
    lemma_curve_signature(curves[i]);
    assert(be32(range_of(b, offset, size), 0) == be32(b, offset));
    assert(storable(curves[i]));
    lemma_stored_curve_is_read_back(curves[i]);
}

/// Every set of curves that can be stored is read back from its bytes, in order.
pub proof fn lemma_stored_curves_are_read_back(curves: Seq<SegmentedCurveView>)
    requires
        storable_set(curves),
    ensures
        cvst_error(cvst_bytes(curves)) is None,
        cvst_count(cvst_bytes(curves)) == curves.len(),
        cvst_of(cvst_bytes(curves)) == as_sources(curves),
        be32(cvst_bytes(curves), 0) == SIG_CVST,
        cvst_bytes(curves).len() >= 12,
{
    let b = cvst_bytes(curves);
    let n = curves.len() as u16;
    let header = bytes32(SIG_CVST) + reserved() + bytes16(n) + bytes16(n);
    assert(header.len() == 12);
    lemma_header_in_place(header, each_curve(curves));
    assert(b[0] == header[0] && b[1] == header[1] && b[2] == header[2] && b[3] == header[3]);
    lemma_read32(b, 0, SIG_CVST);
    assert(b[8] == header[8] && b[9] == header[9] && b[10] == header[10] && b[11] == header[11]);
    assert(be16(b, 8) == n && be16(b, 10) == n);
    assert forall|j: int| 0 <= j < cvst_count(b) implies #[trigger] cvst_curve_error(
        b,
        j,
    ) is None by {
        lemma_stored_curve_of_a_set(curves, j);
    }
    lemma_no_curves_error(b, 0);
    assert forall|j: int| 0 <= j < curves.len() implies #[trigger] cvst_of(b)[j] == as_sources(
        curves,
    )[j] by {
        lemma_stored_curve_of_a_set(curves, j);
    }
    assert(cvst_of(b) =~= as_sources(curves));
}

/// The elements of a stored chain are found.
proof fn lemma_stored_chain(elements: Seq<Seq<u8>>)
    requires
        1 <= elements.len() <= 2,
        forall|i: int| 0 <= i < elements.len() ==> (#[trigger] elements[i]).len() >= 4,
        mpet_bytes(elements).len() <= u32::MAX,
        mpet_bytes(elements).len() <= usize::MAX,
    ensures
        ({
            let b = mpet_bytes(elements);
            &&& is_short_rgb_chain(b)
            &&& be32(b, 12) == elements.len()
            &&& b.len() >= 16 + 8 * elements.len()
            &&& forall|i: int|
                0 <= i < elements.len() ==> #[trigger] element_error(b, i) is None && element_blob(
                    b,
                    i,
                ) == elements[i]
        }),
{
    let b = mpet_bytes(elements);
    let header = bytes32(SIG_MPET) + reserved() + bytes16(3) + bytes16(3) + bytes32(
        elements.len() as u32,
    );
    assert(header.len() == 16);
    lemma_header_in_place(header, elements);
    assert(b[0] == header[0] && b[1] == header[1] && b[2] == header[2] && b[3] == header[3]);
    lemma_read32(b, 0, SIG_MPET);
    assert(b[8] == header[8] && b[9] == header[9] && b[10] == header[10] && b[11] == header[11]);
    assert(be16(b, 8) == 3 && be16(b, 10) == 3);
    assert(b[12] == header[12] && b[13] == header[13] && b[14] == header[14] && b[15]
        == header[15]);
    lemma_read32(b, 12, elements.len() as u32);
    assert forall|i: int| 0 <= i < elements.len() implies #[trigger] element_error(b, i) is None
        && element_blob(b, i) == elements[i] by {
        lemma_part_in_place(header, elements, i);
        assert(elements[i].len() >= 4);
    }
}

/// A tag that stands between other bytes is read as on its own.
proof fn lemma_tag_between(before: Seq<u8>, tag: Seq<u8>, after: Seq<u8>)
    requires
        before.len() + tag.len() <= usize::MAX,
    ensures
        range_of(before + tag + after, before.len() as int, tag.len() as int) == tag,
        range_error(
            (before + tag + after).len() as int,
            before.len() as int,
            tag.len() as int,
        ) is None,
{
    assert(range_of(before + tag + after, before.len() as int, tag.len() as int) =~= tag);
}

/// How long a stored chain is.
proof fn lemma_chain_length(elements: Seq<Seq<u8>>)
    requires
        1 <= elements.len() <= 2,
    ensures
        elements.len() == 1 ==> mpet_bytes(elements).len() == 24 + elements[0].len(),
        elements.len() == 2 ==> mpet_bytes(elements).len() == 32 + elements[0].len()
            + elements[1].len(),
{
    reveal(packed);
    reveal_with_fuel(joined, 3);
    let header = bytes32(SIG_MPET) + reserved() + bytes16(3) + bytes16(3) + bytes32(
        elements.len() as u32,
    );
    assert(header.len() == 16);
}

/// A tag with a short chain is read as its chain.
proof fn lemma_tag_is_its_chain(s: Seq<u8>, entry: int, size: int, tag: Seq<u8>)
    requires
        range_error(s.len() as int, entry, size) is None,
        range_of(s, entry, size) == tag,
        size >= 16,
        is_short_rgb_chain(tag),
        size >= 16 + 8 * be32(tag, 12),
    ensures
        mpet_of(s, entry, size) == chain_of(tag),
{
}

/// A chain of a curve set and a matrix is read as the two.
proof fn lemma_chain_of_pair(tag: Seq<u8>, c: Seq<u8>, m: Seq<u8>, curves_first: bool)
    requires
        be32(tag, 12) == 2,
        element_error(tag, 0) is None,
        element_error(tag, 1) is None,
        element_blob(tag, 0) == if curves_first { c } else { m },
        element_blob(tag, 1) == if curves_first { m } else { c },
        be32(c, 0) == SIG_CVST,
        be32(m, 0) == SIG_MATF,
    ensures
        chain_of(tag) == curves_and_matrix(c, m, curves_first),
{
}

/// A stored chain of two has its two elements.
proof fn lemma_stored_two(e0: Seq<u8>, e1: Seq<u8>)
    requires
        e0.len() >= 4,
        e1.len() >= 4,
        32 + e0.len() + e1.len() <= u32::MAX,
        32 + e0.len() + e1.len() <= usize::MAX,
    ensures
        ({
            let tag = mpet_bytes(seq![e0, e1]);
            &&& tag.len() == 32 + e0.len() + e1.len()
            &&& is_short_rgb_chain(tag)
            &&& be32(tag, 12) == 2
            &&& element_error(tag, 0) is None && element_blob(tag, 0) == e0
            &&& element_error(tag, 1) is None && element_blob(tag, 1) == e1
        }),
{
    let elements = seq![e0, e1];
    let tag = mpet_bytes(elements);
    lemma_chain_length(elements);
    lemma_stored_chain(elements);
    assert(element_error(tag, 0) is None && element_blob(tag, 0) == elements[0]);
    assert(element_error(tag, 1) is None && element_blob(tag, 1) == elements[1]);
}

/// A stored chain of two is read as its two elements.
proof fn lemma_stored_pair(
    c: Seq<u8>,
    m: Seq<u8>,
    curves_first: bool,
    before: Seq<u8>,
    after: Seq<u8>,
)
    requires
        c.len() >= 4,
        m.len() >= 4,
        be32(c, 0) == SIG_CVST,
        be32(m, 0) == SIG_MATF,
        32 + c.len() + m.len() <= u32::MAX,
        before.len() + 32 + c.len() + m.len() <= usize::MAX,
    ensures
        ({
            let tag = mpet_bytes(
                if curves_first {
                    seq![c, m]
                } else {
                    seq![m, c]
                },
            );
            mpet_of(before + tag + after, before.len() as int, tag.len() as int)
                == curves_and_matrix(c, m, curves_first)
        }),
{
    let (e0, e1) = if curves_first {
        (c, m)
    } else {
        (m, c)
    };
    let tag = mpet_bytes(seq![e0, e1]);
    lemma_stored_two(e0, e1);
    lemma_tag_between(before, tag, after);
    lemma_tag_is_its_chain(before + tag + after, before.len() as int, tag.len() as int, tag);
    lemma_chain_of_pair(tag, c, m, curves_first);
}

/// A stored chain of one is read as its element.
proof fn lemma_stored_single(e: Seq<u8>, before: Seq<u8>, after: Seq<u8>)
    requires
        e.len() >= 4,
        24 + e.len() <= u32::MAX,
        before.len() + 24 + e.len() <= usize::MAX,
    ensures
        ({
            let tag = mpet_bytes(seq![e]);
            let r = mpet_of(before + tag + after, before.len() as int, tag.len() as int);
            &&& be32(e, 0) == SIG_MATF ==> r == matrix_only(e)
            &&& be32(e, 0) == SIG_CVST ==> r == curves_only(e)
        }),
{
    let elements = seq![e];
    let tag = mpet_bytes(elements);
    lemma_chain_length(elements);
    lemma_stored_chain(elements);
    lemma_tag_between(before, tag, after);
    assert(element_error(tag, 0) is None && element_blob(tag, 0) == elements[0]);
}

/// Every matrix shaper is read back from its bytes, wherever they stand in a profile: its three or
/// more curves, the matrix entry by entry, the offset, and the order of the two.
pub proof fn lemma_stored_shaper_is_read_back(
    curves: Seq<SegmentedCurveView>,
    matrix: Seq<Seq<u32>>,
    offset: Seq<u32>,
    curves_first: bool,
    before: Seq<u8>,
    after: Seq<u8>,
)
    requires
        storable_set(curves),
        curves.len() >= 3,
        is_three_by_three(matrix, offset),
        ({
            let size = 92 + cvst_bytes(curves).len();
            size <= u32::MAX && before.len() + size <= usize::MAX
        }),
    ensures
        ({
            let (c, m) = (cvst_bytes(curves), matf_bytes(matrix, offset));
            let tag = mpet_bytes(
                if curves_first {
                    seq![c, m]
                } else {
                    seq![m, c]
                },
            );
            mpet_of(before + tag + after, before.len() as int, tag.len() as int) == Ok::<
                Option<MpetView>,
                CmsError,
            >(Some(MpetView { curves: as_sources(curves), matrix, offset, curves_first }))
        }),
{
    lemma_stored_matrix_is_read_back(matrix, offset);
    lemma_stored_curves_are_read_back(curves);
    lemma_stored_pair(
        cvst_bytes(curves),
        matf_bytes(matrix, offset),
        curves_first,
        before,
        after,
    );
}

/// What a matrix on its own is read as.
proof fn lemma_matrix_only(e: Seq<u8>, matrix: Seq<Seq<u32>>, offset: Seq<u32>)
    requires
        is_matf(e),
        matf_matrix(e) == matrix,
        matf_offset(e) == offset,
    ensures
        ({
            let identity = CurveSourceView::Identity;
            matrix_only(e) == Ok::<Option<MpetView>, CmsError>(
                Some(
                    MpetView {
                        curves: seq![identity, identity, identity],
                        matrix,
                        offset,
                        curves_first: false,
                    },
                ),
            )
        }),
{
    let identity = CurveSourceView::Identity;
    assert(Seq::new(3, |i: int| CurveSourceView::Identity) =~= seq![identity, identity, identity]);
}

/// A matrix that is stored alone is read back, between curves that change nothing.
pub proof fn lemma_stored_matrix_alone_is_read_back(
    matrix: Seq<Seq<u32>>,
    offset: Seq<u32>,
    before: Seq<u8>,
    after: Seq<u8>,
)
    requires
        is_three_by_three(matrix, offset),
        before.len() + 84 <= usize::MAX,
    ensures
        ({
            let tag = mpet_bytes(seq![matf_bytes(matrix, offset)]);
            let identity = CurveSourceView::Identity;
            mpet_of(before + tag + after, before.len() as int, tag.len() as int) == Ok::<
                Option<MpetView>,
                CmsError,
            >(
                Some(
                    MpetView {
                        curves: seq![identity, identity, identity],
                        matrix,
                        offset,
                        curves_first: false,
                    },
                ),
            )
        }),
{
    lemma_stored_matrix_is_read_back(matrix, offset);
    lemma_stored_single(matf_bytes(matrix, offset), before, after);
    lemma_matrix_only(matf_bytes(matrix, offset), matrix, offset);
}

/// Curves that are stored alone are read back, before a matrix that changes nothing: ones on its
/// diagonal, zeros elsewhere, and an offset of zeros.
pub proof fn lemma_stored_curves_alone_are_read_back(
    curves: Seq<SegmentedCurveView>,
    before: Seq<u8>,
    after: Seq<u8>,
)
    requires
        storable_set(curves),
        curves.len() >= 3,
        ({
            let size = 24 + cvst_bytes(curves).len();
            size <= u32::MAX && before.len() + size <= usize::MAX
        }),
    ensures
        ({
            let tag = mpet_bytes(seq![cvst_bytes(curves)]);
            let r = mpet_of(before + tag + after, before.len() as int, tag.len() as int);
            let one = 0x3f80_0000u32;
            r == Ok::<Option<MpetView>, CmsError>(
                Some(
                    MpetView {
                        curves: as_sources(curves),
                        matrix: seq![
                            seq![one, 0u32, 0u32],
                            seq![0u32, one, 0u32],
                            seq![0u32, 0u32, one],
                        ],
                        offset: seq![0u32, 0u32, 0u32],
                        curves_first: true,
                    },
                ),
            )
        }),
{
    lemma_stored_curves_are_read_back(curves);
    lemma_stored_single(cvst_bytes(curves), before, after);
}

} // verus!
