//! What holds of the readers of processing elements, for all bytes.

use crate::bytes::{be16, be32, lemma_numbers_are_stored_high_byte_first};
use crate::err::CmsError;
use crate::iccmax::elements::{
    cvst_count, cvst_curve_error, cvst_curves_error, cvst_error, cvst_of, fl32_of, identity_matrix,
    is_fl32, is_matf, matf_matrix, matf_offset, CurveSourceView,
};
use crate::iccmax::segmented_curve::{curve_error, curve_of};
use vstd::prelude::*;

verus! {

/// The bytes of a tag.
pub open spec fn tag_bytes(s: Seq<u8>, entry: int, size: int) -> Seq<u8> {
    s.subrange(entry, entry + size)
}

/// The four bytes at the start spell a signature.
pub open spec fn starts_with(blob: Seq<u8>, a: u8, b: u8, c: u8, d: u8) -> bool {
    blob.len() >= 4 && blob[0] == a && blob[1] == b && blob[2] == c && blob[3] == d
}

/// An `fl32` array is told by its first four bytes, and has a header of eight. Its numbers follow
/// the header, as many as there are whole ones.
pub proof fn lemma_numbers_follow_their_header(blob: Seq<u8>, k: int)
    ensures
        is_fl32(blob) <==> blob.len() >= 8 && starts_with(blob, 0x66, 0x6c, 0x33, 0x32),
        blob.len() >= 8 ==> {
            &&& 4 * fl32_of(blob).len() <= blob.len() - 8 < 4 * fl32_of(blob).len() + 4
            &&& 0 <= k < fl32_of(blob).len() ==> fl32_of(blob)[k] == be32(blob, 8 + 4 * k)
        },
{
    lemma_numbers_are_stored_high_byte_first(blob, 0);
}

/// A `matf` element is told by its first four bytes and by three channels in and out, and is sixty
/// bytes long at least. The matrix stands in it row by row, and the offset behind the matrix.
pub proof fn lemma_matrix_stands_row_by_row(blob: Seq<u8>, r: int, c: int)
    requires
        0 <= r < 3,
        0 <= c < 3,
    ensures
        is_matf(blob) <==> blob.len() >= 60 && starts_with(blob, 0x6d, 0x61, 0x74, 0x66) && be16(
            blob,
            8,
        ) == 3 && be16(blob, 10) == 3,
        matf_matrix(blob).len() == 3,
        matf_matrix(blob)[r].len() == 3,
        matf_matrix(blob)[r][c] == be32(blob, 12 + 12 * r + 4 * c),
        matf_offset(blob).len() == 3,
        matf_offset(blob)[c] == be32(blob, 48 + 4 * c),
{
    lemma_numbers_are_stored_high_byte_first(blob, 0);
}

/// The identity matrix has ones on its diagonal and zeros elsewhere.
pub proof fn lemma_identity_has_ones_on_its_diagonal(r: int, c: int)
    requires
        0 <= r < 3,
        0 <= c < 3,
    ensures
        identity_matrix().len() == 3,
        identity_matrix()[r].len() == 3,
        identity_matrix()[r][c] == if r == c {
            0x3f80_0000u32
        } else {
            0
        },
{
}

/// The bytes that row `j` of the table of a `cvst` element points to.
pub open spec fn curve_part(e: Seq<u8>, j: int) -> Seq<u8> {
    let offset = be32(e, 12 + 8 * j) as int;
    e.subrange(offset, offset + be32(e, 16 + 8 * j))
}

/// Whether row `j` of the table of a `cvst` element points into the element, at a signature at
/// least.
pub open spec fn curve_part_lies_within(e: Seq<u8>, j: int) -> bool {
    let end = be32(e, 12 + 8 * j) + be32(e, 16 + 8 * j);
    end <= e.len() && end <= usize::MAX && be32(e, 16 + 8 * j) >= 4
}

/// A `cvst` element has as many curves as it has inputs or outputs, whichever are more. Each is the
/// segmented curve that its row of the table points to, and the identity where that is something
/// else.
pub proof fn lemma_each_row_gives_its_curve(e: Seq<u8>, j: int)
    requires
        cvst_error(e) is None,
        0 <= j < cvst_of(e).len(),
    ensures
        cvst_of(e).len() == cvst_count(e),
        cvst_count(e) == if be16(e, 8) >= be16(e, 10) {
            be16(e, 8)
        } else {
            be16(e, 10)
        },
        1 <= cvst_count(e) <= 16,
        starts_with(e, 0x63, 0x76, 0x73, 0x74),
        e.len() >= 12 + 8 * cvst_count(e),
        curve_part_lies_within(e, j),
        starts_with(curve_part(e, j), 0x63, 0x75, 0x72, 0x66) ==> {
            &&& curve_error(curve_part(e, j)) is None
            &&& cvst_of(e)[j] == (CurveSourceView::Segmented {
                curve: curve_of(curve_part(e, j)),
                invert: false,
            })
        },
        !starts_with(curve_part(e, j), 0x63, 0x75, 0x72, 0x66) ==> cvst_of(e)[j]
            == CurveSourceView::Identity,
{
    lemma_no_curve_is_in_error(e, 0, j);
    lemma_numbers_are_stored_high_byte_first(e, 0);
    let offset = be32(e, 12 + 8 * j) as int;
    let part = curve_part(e, j);
    assert(be32(part, 0) == be32(e, offset));
    lemma_numbers_are_stored_high_byte_first(part, 0);
}

/// Where the curves from one on are not in error, none of them is.
proof fn lemma_no_curve_is_in_error(e: Seq<u8>, i: int, j: int)
    requires
        cvst_curves_error(e, i) is None,
        0 <= i <= j < cvst_count(e),
    ensures
        cvst_curve_error(e, j) is None,
    decreases j - i,
{
    if i < j {
        lemma_no_curve_is_in_error(e, i + 1, j);
    }
}

/// The first curve in error tells why the curves cannot be read.
proof fn lemma_first_error_counts(e: Seq<u8>, i: int, j: int)
    requires
        0 <= i <= j < cvst_count(e),
        forall|k: int| i <= k < j ==> #[trigger] cvst_curve_error(e, k) is None,
        cvst_curve_error(e, j) is Some,
    ensures
        cvst_curves_error(e, i) == cvst_curve_error(e, j),
    decreases j - i,
{
    if i < j {
        assert(cvst_curve_error(e, i) is None);
        lemma_first_error_counts(e, i + 1, j);
    }
}

/// Curves of which none is in error are fine as a whole.
proof fn lemma_no_error_at_all(e: Seq<u8>, i: int)
    requires
        0 <= i,
        forall|k: int| i <= k < cvst_count(e) ==> #[trigger] cvst_curve_error(e, k) is None,
    ensures
        cvst_curves_error(e, i) is None,
    decreases cvst_count(e) - i,
{
    if i < cvst_count(e) {
        assert(cvst_curve_error(e, i) is None);
        lemma_no_error_at_all(e, i + 1);
    }
}

/// Whether row `j` of the table of a `cvst` element can be read: it points into the element, and
/// what it points to is a sound curve where it claims to be a segmented one.
pub open spec fn curve_part_is_sound(e: Seq<u8>, j: int) -> bool {
    &&& curve_part_lies_within(e, j)
    &&& starts_with(curve_part(e, j), 0x63, 0x75, 0x72, 0x66) ==> curve_error(
        curve_part(e, j),
    ) is None
}

/// A row is in error exactly where it is not sound.
proof fn lemma_sound_row(e: Seq<u8>, j: int)
    ensures
        cvst_curve_error(e, j) is None <==> curve_part_is_sound(e, j),
        curve_part_lies_within(e, j) && cvst_curve_error(e, j) is Some ==> cvst_curve_error(e, j)
            == curve_error(curve_part(e, j)),
        !curve_part_lies_within(e, j) ==> cvst_curve_error(e, j) == if be32(e, 12 + 8 * j) + be32(
            e,
            16 + 8 * j,
        ) > usize::MAX {
            Some(CmsError::OverflowingError)
        } else {
            Some(CmsError::InvalidProfile)
        },
{
    if curve_part_lies_within(e, j) {
        let part = curve_part(e, j);
        assert(be32(part, 0) == be32(e, be32(e, 12 + 8 * j) as int));
        lemma_numbers_are_stored_high_byte_first(part, 0);
    }
}

/// Whether the bytes are framed as a `cvst` element: they have its signature and one to sixteen
/// curves, and the table is complete.
pub open spec fn is_framed_set(e: Seq<u8>) -> bool {
    &&& e.len() >= 12
    &&& starts_with(e, 0x63, 0x76, 0x73, 0x74)
    &&& 1 <= cvst_count(e) <= 16
    &&& e.len() >= 12 + 8 * cvst_count(e)
}

/// Bytes that are not framed as a `cvst` element are an invalid profile. In others the rows tell
/// whether it can be read, one for each input or output, whichever are more.
pub proof fn lemma_curve_set_is_framed(e: Seq<u8>)
    ensures
        !is_framed_set(e) ==> cvst_error(e) == Some(CmsError::InvalidProfile),
        is_framed_set(e) ==> cvst_error(e) == cvst_curves_error(e, 0),
        cvst_count(e) == if be16(e, 8) >= be16(e, 10) {
            be16(e, 8)
        } else {
            be16(e, 10)
        },
{
    lemma_numbers_are_stored_high_byte_first(e, 0);
}

/// A `cvst` element is read where every row of its table is sound.
pub proof fn lemma_sound_rows_make_a_curve_set(e: Seq<u8>)
    requires
        is_framed_set(e),
        forall|k: int| 0 <= k < cvst_count(e) ==> #[trigger] curve_part_is_sound(e, k),
    ensures
        cvst_error(e) is None,
{
    lemma_curve_set_is_framed(e);
    assert forall|k: int| 0 <= k < cvst_count(e) implies #[trigger] cvst_curve_error(
        e,
        k,
    ) is None by {
        assert(curve_part_is_sound(e, k));
        lemma_sound_row(e, k);
    }
    lemma_no_error_at_all(e, 0);
}

/// What is wrong with the first row of a `cvst` element that is not sound is what is wrong with the
/// element.
pub proof fn lemma_first_unsound_row_counts(e: Seq<u8>, j: int)
    requires
        is_framed_set(e),
        0 <= j < cvst_count(e),
        !curve_part_is_sound(e, j),
        forall|k: int| 0 <= k < j ==> #[trigger] curve_part_is_sound(e, k),
    ensures
        cvst_error(e) == if curve_part_lies_within(e, j) {
            curve_error(curve_part(e, j))
        } else if be32(e, 12 + 8 * j) + be32(e, 16 + 8 * j) > usize::MAX {
            Some(CmsError::OverflowingError)
        } else {
            Some(CmsError::InvalidProfile)
        },
{
    lemma_curve_set_is_framed(e);
    assert forall|k: int| 0 <= k < j implies #[trigger] cvst_curve_error(e, k) is None by {
        assert(curve_part_is_sound(e, k));
        lemma_sound_row(e, k);
    }
    lemma_sound_row(e, j);
    lemma_first_error_counts(e, 0, j);
}

} // verus!
