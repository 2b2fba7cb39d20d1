//! What holds of the reader of `mpet` chains, for all bytes.

use crate::bytes::{be16, be32, lemma_numbers_are_stored_high_byte_first, range_of};
use crate::err::CmsError;
use crate::iccmax::element_laws::{
    curve_part, lemma_each_row_gives_its_curve, lemma_identity_has_ones_on_its_diagonal,
    lemma_matrix_stands_row_by_row, starts_with, tag_bytes,
};
use crate::iccmax::elements::{
    cvst_count, cvst_error, cvst_of, is_matf, matf_matrix, matf_offset, CurveSourceView, SIG_CVST,
    SIG_MATF,
};
use crate::iccmax::mpet::{
    chain_of, curves_and_matrix, curves_only, element_blob, element_error, matrix_only, mpet_of,
    MpetView,
};
use crate::iccmax::segmented_curve::curve_of;
use vstd::prelude::*;

verus! {

/// The bytes that row `i` of the table of a chain points to.
pub open spec fn element(tag: Seq<u8>, i: int) -> Seq<u8> {
    let offset = be32(tag, 16 + 8 * i) as int;
    tag.subrange(offset, offset + be32(tag, 20 + 8 * i))
}

/// Whether row `i` of the table of a chain points into the tag, at a signature at least.
pub open spec fn element_lies_within(tag: Seq<u8>, i: int) -> bool {
    let end = be32(tag, 16 + 8 * i) + be32(tag, 20 + 8 * i);
    end <= tag.len() && end <= usize::MAX && be32(tag, 20 + 8 * i) >= 4
}

/// Whether the element is a curve set by its signature.
pub open spec fn is_cvst(e: Seq<u8>) -> bool {
    starts_with(e, 0x63, 0x76, 0x73, 0x74)
}

/// Whether the element is a matrix by its signature.
pub open spec fn is_matrix(e: Seq<u8>) -> bool {
    starts_with(e, 0x6d, 0x61, 0x74, 0x66)
}

/// Whether the tag is there and is a chain of one or two elements with three channels in and three
/// out.
pub open spec fn is_chain(s: Seq<u8>, entry: int, size: int) -> bool {
    let tag = tag_bytes(s, entry, size);
    &&& size >= 16
    &&& entry + size <= s.len()
    &&& entry + size <= usize::MAX
    &&& starts_with(tag, 0x6d, 0x70, 0x65, 0x74)
    &&& be16(tag, 8) == 3
    &&& be16(tag, 10) == 3
    &&& be32(tag, 12) == 1 || be32(tag, 12) == 2
}

/// The matrix shaper of a tag, where there is one.
pub open spec fn found(s: Seq<u8>, entry: int, size: int) -> Option<MpetView> {
    match mpet_of(s, entry, size) {
        Ok(shaper) => shaper,
        Err(_) => None,
    }
}

/// A tag is read as a chain just where it is one.
proof fn lemma_chain_is_told(s: Seq<u8>, entry: int, size: int)
    requires
        0 <= entry,
        0 <= size,
    ensures
        is_chain(s, entry, size) ==> {
            let tag = tag_bytes(s, entry, size);
            &&& size < 16 + 8 * be32(tag, 12) ==> mpet_of(s, entry, size) == Err::<
                Option<MpetView>,
                CmsError,
            >(CmsError::InvalidProfile)
            &&& size >= 16 + 8 * be32(tag, 12) ==> mpet_of(s, entry, size) == chain_of(tag)
        },
        !is_chain(s, entry, size) ==> mpet_of(s, entry, size) == if size < 16 {
            Ok(None)
        } else if entry + size > usize::MAX {
            Err(CmsError::OverflowingError)
        } else if entry + size > s.len() {
            Err(CmsError::InvalidProfile)
        } else {
            Ok::<Option<MpetView>, CmsError>(None)
        },
{
    let tag = tag_bytes(s, entry, size);
    assert(tag == range_of(s, entry, size));
    lemma_numbers_are_stored_high_byte_first(tag, 0);
}

/// An element that does not lie within the tag is an error.
proof fn lemma_element_is_told(tag: Seq<u8>, i: int)
    ensures
        element_lies_within(tag, i) ==> {
            &&& element_error(tag, i) is None
            &&& element_blob(tag, i) == element(tag, i)
            &&& element(tag, i).len() >= 4
        },
        !element_lies_within(tag, i) ==> element_error(tag, i) == if be32(tag, 16 + 8 * i) + be32(
            tag,
            20 + 8 * i,
        ) > usize::MAX {
            Some(CmsError::OverflowingError)
        } else {
            Some(CmsError::InvalidProfile)
        },
{
}

/// A signature is told by its four bytes.
proof fn lemma_signature_is_told(e: Seq<u8>)
    requires
        e.len() >= 4,
    ensures
        is_cvst(e) <==> be32(e, 0) == SIG_CVST,
        is_matrix(e) <==> be32(e, 0) == SIG_MATF,
{
    lemma_numbers_are_stored_high_byte_first(e, 0);
}

/// What a chain that lies within its tag is read as.
proof fn lemma_sound_chain(tag: Seq<u8>)
    requires
        be32(tag, 12) == 1 || be32(tag, 12) == 2,
        element_lies_within(tag, 0),
        be32(tag, 12) == 2 ==> element_lies_within(tag, 1),
    ensures
        ({
            let (e0, e1) = (element(tag, 0), element(tag, 1));
            if be32(tag, 12) == 1 {
                &&& is_matrix(e0) ==> chain_of(tag) == matrix_only(e0)
                &&& is_cvst(e0) ==> chain_of(tag) == curves_only(e0)
                &&& !is_matrix(e0) && !is_cvst(e0) ==> chain_of(tag) == Ok::<
                    Option<MpetView>,
                    CmsError,
                >(None)
            } else {
                &&& is_cvst(e0) && is_matrix(e1) ==> chain_of(tag) == curves_and_matrix(
                    e0,
                    e1,
                    true,
                )
                &&& is_matrix(e0) && is_cvst(e1) ==> chain_of(tag) == curves_and_matrix(
                    e1,
                    e0,
                    false,
                )
                &&& !(is_cvst(e0) && is_matrix(e1)) && !(is_matrix(e0) && is_cvst(e1))
                    ==> chain_of(tag) == Ok::<Option<MpetView>, CmsError>(None)
            }
        }),
{
    lemma_element_is_told(tag, 0);
    lemma_signature_is_told(element(tag, 0));
    if be32(tag, 12) == 2 {
        lemma_element_is_told(tag, 1);
        lemma_signature_is_told(element(tag, 1));
    }
}

/// Where there is a matrix shaper, its tag is a chain whose elements lie within it: a curve set, a
/// matrix, or one of each.
proof fn lemma_shaper_has_a_chain(s: Seq<u8>, entry: int, size: int)
    requires
        0 <= entry,
        0 <= size,
        found(s, entry, size) is Some,
    ensures
        is_chain(s, entry, size),
        ({
            let tag = tag_bytes(s, entry, size);
            let (e0, e1) = (element(tag, 0), element(tag, 1));
            &&& size >= 16 + 8 * be32(tag, 12)
            &&& mpet_of(s, entry, size) == chain_of(tag)
            &&& element_lies_within(tag, 0)
            &&& be32(tag, 12) == 1 ==> is_matrix(e0) || is_cvst(e0)
            &&& be32(tag, 12) == 2 ==> element_lies_within(tag, 1) && (is_matrix(e0) && is_cvst(e1)
                || is_cvst(e0) && is_matrix(e1))
        }),
{
    let tag = tag_bytes(s, entry, size);
    lemma_chain_is_told(s, entry, size);
    lemma_element_is_told(tag, 0);
    lemma_element_is_told(tag, 1);
    if be32(tag, 12) == 1 || be32(tag, 12) == 2 {
        if element_lies_within(tag, 0) && (be32(tag, 12) == 2 ==> element_lies_within(tag, 1)) {
            lemma_sound_chain(tag);
        }
    }
}

/// What each shape of chain holds where it is a matrix shaper.
proof fn lemma_shapes(c: Seq<u8>, m: Seq<u8>, curves_first: bool)
    ensures
        matrix_only(m) matches Ok(Some(v)) ==> {
            &&& is_matf(m)
            &&& v.matrix == matf_matrix(m)
            &&& v.offset == matf_offset(m)
            &&& !v.curves_first
        },
        curves_only(c) matches Ok(Some(v)) ==> {
            &&& cvst_error(c) is None
            &&& v.curves == cvst_of(c)
            &&& v.curves_first
        },
        curves_and_matrix(c, m, curves_first) matches Ok(Some(v)) ==> {
            &&& is_matf(m)
            &&& cvst_error(c) is None
            &&& v.matrix == matf_matrix(m)
            &&& v.offset == matf_offset(m)
            &&& v.curves == cvst_of(c)
            &&& v.curves_first == curves_first
        },
{
}

/// The matrix of a shaper is that of its matrix element, whatever the shape of the chain: entry
/// `(r, c)` is the number at `12 + 12 * r + 4 * c` of the element, and entry `c` of the offset the
/// number at `48 + 4 * c`.
pub proof fn lemma_matrix_comes_from_its_element(
    s: Seq<u8>,
    entry: int,
    size: int,
    i: int,
    r: int,
    c: int,
)
    requires
        0 <= entry,
        0 <= size,
        found(s, entry, size) is Some,
        0 <= i < be32(tag_bytes(s, entry, size), 12),
        is_matrix(element(tag_bytes(s, entry, size), i)),
        0 <= r < 3,
        0 <= c < 3,
    ensures
        ({
            let e = element(tag_bytes(s, entry, size), i);
            let shaper = found(s, entry, size)->0;
            &&& e.len() >= 60
            &&& shaper.matrix.len() == 3
            &&& shaper.matrix[r].len() == 3
            &&& shaper.matrix[r][c] == be32(e, 12 + 12 * r + 4 * c)
            &&& shaper.offset.len() == 3
            &&& shaper.offset[c] == be32(e, 48 + 4 * c)
        }),
{
    let tag = tag_bytes(s, entry, size);
    lemma_shaper_has_a_chain(s, entry, size);
    lemma_sound_chain(tag);
    let (e0, e1) = (element(tag, 0), element(tag, 1));
    lemma_shapes(e0, e1, true);
    lemma_shapes(e1, e0, false);
    lemma_matrix_stands_row_by_row(element(tag, i), r, c);
}

/// The curves of a shaper are those of its curve set, whatever the shape of the chain: one for each
/// input or output of the set, each the segmented curve that its row points to, or the identity
/// where that is something else.
pub proof fn lemma_curves_come_from_their_element(
    s: Seq<u8>,
    entry: int,
    size: int,
    i: int,
    j: int,
)
    requires
        0 <= entry,
        0 <= size,
        found(s, entry, size) is Some,
        0 <= i < be32(tag_bytes(s, entry, size), 12),
        is_cvst(element(tag_bytes(s, entry, size), i)),
        0 <= j < found(s, entry, size)->0.curves.len(),
    ensures
        ({
            let e = element(tag_bytes(s, entry, size), i);
            let shaper = found(s, entry, size)->0;
            let part = curve_part(e, j);
            &&& shaper.curves.len() == if be16(e, 8) >= be16(e, 10) {
                be16(e, 8)
            } else {
                be16(e, 10)
            }
            &&& starts_with(part, 0x63, 0x75, 0x72, 0x66) ==> shaper.curves[j]
                == (CurveSourceView::Segmented { curve: curve_of(part), invert: false })
            &&& !starts_with(part, 0x63, 0x75, 0x72, 0x66) ==> shaper.curves[j]
                == CurveSourceView::Identity
        }),
{
    let tag = tag_bytes(s, entry, size);
    lemma_shaper_has_a_chain(s, entry, size);
    lemma_sound_chain(tag);
    let (e0, e1) = (element(tag, 0), element(tag, 1));
    lemma_shapes(e0, e1, true);
    lemma_shapes(e0, e0, true);
    lemma_shapes(e1, e0, false);
    lemma_each_row_gives_its_curve(element(tag, i), j);
}

/// The curves of a shaper come first exactly where its first element is the curve set.
pub proof fn lemma_order_is_that_of_the_chain(s: Seq<u8>, entry: int, size: int)
    requires
        0 <= entry,
        0 <= size,
        found(s, entry, size) is Some,
    ensures
        found(s, entry, size)->0.curves_first <==> is_cvst(
            element(tag_bytes(s, entry, size), 0),
        ),
{
    let tag = tag_bytes(s, entry, size);
    lemma_shaper_has_a_chain(s, entry, size);
    lemma_sound_chain(tag);
    let (e0, e1) = (element(tag, 0), element(tag, 1));
    lemma_shapes(e0, e1, true);
    lemma_shapes(e0, e0, true);
    lemma_shapes(e1, e0, false);
}

/// What a chain of one element lacks changes nothing: without a curve set there are three curves
/// that are the identity, and without a matrix it is the identity and its offset zero.
pub proof fn lemma_missing_element_changes_nothing(
    s: Seq<u8>,
    entry: int,
    size: int,
    r: int,
    c: int,
)
    requires
        0 <= entry,
        0 <= size,
        found(s, entry, size) is Some,
        be32(tag_bytes(s, entry, size), 12) == 1,
        0 <= r < 3,
        0 <= c < 3,
    ensures
        ({
            let e = element(tag_bytes(s, entry, size), 0);
            let shaper = found(s, entry, size)->0;
            &&& is_matrix(e) ==> shaper.curves.len() == 3 && shaper.curves[r]
                == CurveSourceView::Identity
            &&& is_cvst(e) ==> {
                &&& shaper.matrix.len() == 3
                &&& shaper.matrix[r].len() == 3
                &&& shaper.matrix[r][c] == if r == c {
                    0x3f80_0000u32
                } else {
                    0
                }
                &&& shaper.offset.len() == 3
                &&& shaper.offset[c] == 0
            }
        }),
{
    let tag = tag_bytes(s, entry, size);
    lemma_shaper_has_a_chain(s, entry, size);
    lemma_sound_chain(tag);
    lemma_identity_has_ones_on_its_diagonal(r, c);
}

/// When a tag is a matrix shaper, when it is passed over, and when it is an error.
///
/// A tag that is no chain of one or two elements with three channels is passed over, unless it does
/// not lie in the profile. A chain is an error where its table is cut off or an element does not
/// lie within the tag. A chain of other elements is passed over. What is left is a shaper where its
/// matrix and its curves can be read and the curves are three at least; fewer curves are passed
/// over, and where both elements are in error the first of them counts.
pub proof fn lemma_tag_is_a_shaper_or_passed_over_or_an_error(s: Seq<u8>, entry: int, size: int)
    requires
        0 <= entry,
        0 <= size,
    ensures
        ({
            let result = mpet_of(s, entry, size);
            let tag = tag_bytes(s, entry, size);
            let n = be32(tag, 12);
            let (e0, e1) = (element(tag, 0), element(tag, 1));
            let within = element_lies_within(tag, 0) && (n == 2 ==> element_lies_within(tag, 1));
            let pair = is_cvst(e0) && is_matrix(e1) || is_matrix(e0) && is_cvst(e1);
            let passed_over = Ok::<Option<MpetView>, CmsError>(None);
            let invalid = Err::<Option<MpetView>, CmsError>(CmsError::InvalidProfile);
            &&& size < 16 ==> result == passed_over
            &&& size >= 16 && entry + size > usize::MAX ==> result == Err::<
                Option<MpetView>,
                CmsError,
            >(CmsError::OverflowingError)
            &&& size >= 16 && s.len() < entry + size <= usize::MAX ==> result == invalid
            &&& size >= 16 && entry + size <= s.len() && entry + size <= usize::MAX && !is_chain(
                s,
                entry,
                size,
            ) ==> result == passed_over
            &&& is_chain(s, entry, size) && size < 16 + 8 * n ==> result == invalid
            &&& is_chain(s, entry, size) && size >= 16 + 8 * n ==> {
                &&& !within ==> result is Err
                &&& within && n == 1 && is_matrix(e0) ==> if is_matf(e0) {
                    result is Ok && result->Ok_0 is Some
                } else {
                    result == invalid
                }
                &&& within && n == 1 && is_cvst(e0) ==> match cvst_error(e0) {
                    Some(e) => result == Err::<Option<MpetView>, CmsError>(e),
                    None => result is Ok && (result->Ok_0 is Some <==> cvst_count(e0) >= 3),
                }
                &&& within && n == 1 && !is_matrix(e0) && !is_cvst(e0) ==> result == passed_over
                &&& within && n == 2 && !pair ==> result == passed_over
                &&& within && n == 2 && pair ==> {
                    let (curves, matrix) = if is_cvst(e0) {
                        (e0, e1)
                    } else {
                        (e1, e0)
                    };
                    match cvst_error(curves) {
                        None => if is_matf(matrix) {
                            result is Ok && (result->Ok_0 is Some <==> cvst_count(curves) >= 3)
                        } else {
                            result == invalid
                        },
                        Some(e) => if is_matf(matrix) || is_cvst(e0) {
                            result == Err::<Option<MpetView>, CmsError>(e)
                        } else {
                            result == invalid
                        },
                    }
                }
            }
        }),
{
    let tag = tag_bytes(s, entry, size);
    let n = be32(tag, 12);
    lemma_chain_is_told(s, entry, size);
    if is_chain(s, entry, size) && size >= 16 + 8 * n {
        lemma_element_is_told(tag, 0);
        lemma_element_is_told(tag, 1);
        if element_lies_within(tag, 0) && (n == 2 ==> element_lies_within(tag, 1)) {
            lemma_sound_chain(tag);
        }
    }
}

/// An element that does not lie within its tag is an invalid profile, or one whose numbers cannot
/// be counted; the first such element counts.
pub proof fn lemma_elements_have_to_lie_within_the_tag(s: Seq<u8>, entry: int, size: int, i: int)
    requires
        0 <= entry,
        0 <= size,
        is_chain(s, entry, size),
        size >= 16 + 8 * be32(tag_bytes(s, entry, size), 12),
        0 <= i < be32(tag_bytes(s, entry, size), 12),
        !element_lies_within(tag_bytes(s, entry, size), i),
        i == 1 ==> element_lies_within(tag_bytes(s, entry, size), 0),
    ensures
        ({
            let tag = tag_bytes(s, entry, size);
            let end = be32(tag, 16 + 8 * i) + be32(tag, 20 + 8 * i);
            mpet_of(s, entry, size) == Err::<Option<MpetView>, CmsError>(
                if end > usize::MAX {
                    CmsError::OverflowingError
                } else {
                    CmsError::InvalidProfile
                },
            )
        }),
{
    let tag = tag_bytes(s, entry, size);
    lemma_chain_is_told(s, entry, size);
    lemma_element_is_told(tag, 0);
    lemma_element_is_told(tag, 1);
}

} // verus!
