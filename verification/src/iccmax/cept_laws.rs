//! What holds of the readers of tag structures and of `cept` colour encodings, for all bytes.

use crate::bytes::{be32, lemma_numbers_are_stored_high_byte_first, range_of};
use crate::err::CmsError;
use crate::iccmax::cept::{
    cept_of, chromaticity_in, chromaticity_of, chromaticity_ok, function_in,
    shaper_of, sub_tag, CeptView, Chromaticity, SIG_BLUE, SIG_CEPT, SIG_FUNC, SIG_GREEN, SIG_RED,
    SIG_WHITE,
};
use crate::iccmax::element_laws::{lemma_numbers_follow_their_header, starts_with, tag_bytes};
use crate::iccmax::elements::{fl32_of, is_fl32, CurveSourceView};
use crate::iccmax::laws::lemma_first_row_is_found;
use crate::iccmax::segmented_curve::{curve_error, curve_of};
use crate::iccmax::tag_struct::{
    table_row, tag_struct_error, tag_struct_of, EntryView, TagStructView,
};
use vstd::prelude::*;

verus! {

/// Whether the tag is there and is a structure: it has the signature, and its table is complete.
pub open spec fn is_structure(s: Seq<u8>, entry: int, size: int) -> bool {
    let tag = tag_bytes(s, entry, size);
    &&& size >= 16
    &&& entry + size <= s.len()
    &&& entry + size <= usize::MAX
    &&& starts_with(tag, 0x74, 0x73, 0x74, 0x72)
    &&& 16 + 12 * be32(tag, 12) <= size
}

/// A structure has its kind at 8, the number of its rows at 12, and from 16 on the rows of twelve
/// bytes each: a signature, the offset from the start of the structure, and the size.
pub proof fn lemma_structure_is_told_by_its_bytes(s: Seq<u8>, entry: int, size: int, i: int)
    requires
        0 <= entry,
        0 <= size,
    ensures
        tag_struct_error(s, entry, size) is None <==> is_structure(s, entry, size),
        size < 16 ==> tag_struct_error(s, entry, size) == Some(CmsError::InvalidProfile),
        size >= 16 && entry + size > usize::MAX ==> tag_struct_error(s, entry, size) == Some(
            CmsError::OverflowingError,
        ),
        size >= 16 && s.len() < entry + size <= usize::MAX ==> tag_struct_error(s, entry, size)
            == Some(CmsError::InvalidProfile),
        size >= 16 && entry + size <= s.len() && entry + size <= usize::MAX && !starts_with(
            tag_bytes(s, entry, size),
            0x74,
            0x73,
            0x74,
            0x72,
        ) ==> tag_struct_error(s, entry, size) == Some(CmsError::InvalidProfile),
        size >= 16 && entry + size <= s.len() && entry + size <= usize::MAX && starts_with(
            tag_bytes(s, entry, size),
            0x74,
            0x73,
            0x74,
            0x72,
        ) && size < 16 + 12 * be32(tag_bytes(s, entry, size), 12) ==> tag_struct_error(
            s,
            entry,
            size,
        ) == Some(
            if 16 + 12 * be32(tag_bytes(s, entry, size), 12) > usize::MAX {
                CmsError::OverflowingError
            } else {
                CmsError::InvalidProfile
            },
        ),
        is_structure(s, entry, size) ==> {
            let tag = tag_bytes(s, entry, size);
            let ts = tag_struct_of(range_of(s, entry, size));
            &&& ts.blob == tag
            &&& ts.struct_id == tag.subrange(8, 12)
            &&& ts.entries.len() == be32(tag, 12)
            &&& 0 <= i < ts.entries.len() ==> {
                &&& ts.entries[i].sig == tag.subrange(16 + 12 * i, 20 + 12 * i)
                &&& ts.entries[i].offset == be32(tag, 20 + 12 * i)
                &&& ts.entries[i].size == be32(tag, 24 + 12 * i)
            }
        },
{
    if size >= 16 && entry + size <= s.len() {
        let tag = tag_bytes(s, entry, size);
        lemma_numbers_are_stored_high_byte_first(tag, 0);
        assert(be32(tag, 0) == be32(s, entry));
        assert(be32(tag, 12) == be32(s, entry + 12));
    }
}

/// Without a row of the signature nothing is found.
pub proof fn lemma_nothing_is_found_without_a_row(ts: TagStructView, sig: Seq<u8>)
    ensures
        ts.find(sig) is None <==> forall|i: int|
            0 <= i < ts.entries.len() ==> #[trigger] ts.entries[i].sig != sig,
{
}

/// A row points to the bytes from its offset on, as many as its size says, where the structure has
/// them.
pub proof fn lemma_row_points_to_its_bytes(ts: TagStructView, e: EntryView)
    ensures
        ts.slice(e) is None <==> e.offset + e.size > ts.blob.len(),
        ts.slice(e) is Some ==> ts.slice(e)->0 == ts.blob.subrange(e.offset, e.offset + e.size),
{
}

/// Row `i` of the table of a structure is the first with the signature.
pub open spec fn is_first_row(tag: Seq<u8>, sig: Seq<u8>, i: int) -> bool {
    &&& 0 <= i < be32(tag, 12)
    &&& tag.subrange(16 + 12 * i, 20 + 12 * i) == sig
    &&& forall|j: int| 0 <= j < i ==> #[trigger] tag.subrange(16 + 12 * j, 20 + 12 * j) != sig
}

/// The bytes that row `i` of the table of a structure points to.
pub open spec fn row_bytes(tag: Seq<u8>, i: int) -> Seq<u8> {
    let offset = be32(tag, 20 + 12 * i) as int;
    tag.subrange(offset, offset + be32(tag, 24 + 12 * i))
}

/// Row `i` of the table of a structure points to bytes `b` within the structure.
pub open spec fn points_to(tag: Seq<u8>, i: int, b: Seq<u8>) -> bool {
    &&& be32(tag, 20 + 12 * i) + be32(tag, 24 + 12 * i) <= tag.len()
    &&& b == row_bytes(tag, i)
}

/// The first row with the signature points to bytes `b` within the structure.
#[verifier::opaque]
pub open spec fn has_part(tag: Seq<u8>, sig: Seq<u8>, b: Seq<u8>) -> bool {
    exists|i: int| #[trigger] is_first_row(tag, sig, i) && points_to(tag, i, b)
}

/// The first row is what the structure finds for the signature.
proof fn lemma_first_row(tag: Seq<u8>, sig: Seq<u8>, i: int)
    requires
        is_first_row(tag, sig, i),
    ensures
        sub_tag(tag_struct_of(tag), sig) == if be32(tag, 20 + 12 * i) + be32(tag, 24 + 12 * i)
            <= tag.len() {
            Some(row_bytes(tag, i))
        } else {
            None
        },
{
    reveal(sub_tag);
    let ts = tag_struct_of(tag);
    assert(ts.entries[i] == table_row(tag, i));
    assert forall|j: int| 0 <= j < i implies #[trigger] ts.entries[j].sig != sig by {
        assert(ts.entries[j] == table_row(tag, j));
        assert(tag.subrange(16 + 12 * j, 20 + 12 * j) != sig);
    }
    lemma_first_row_is_found(ts, sig, i);
}

/// What a structure finds for a signature is in one of its rows.
proof fn lemma_found_entry(ts: TagStructView, sig: Seq<u8>)
    requires
        sub_tag(ts, sig) is Some,
    ensures
        exists|i: int| 0 <= i < ts.entries.len() && #[trigger] ts.entries[i].sig == sig,
{
    reveal(sub_tag);
}

/// What the structure finds for a signature has a row.
proof fn lemma_found_row(tag: Seq<u8>, sig: Seq<u8>)
    requires
        sub_tag(tag_struct_of(tag), sig) is Some,
    ensures
        exists|i: int| is_first_row(tag, sig, i),
{
    let ts = tag_struct_of(tag);
    lemma_found_entry(ts, sig);
    let k = choose|i: int| 0 <= i < ts.entries.len() && #[trigger] ts.entries[i].sig == sig;
    assert(ts.entries[k] == table_row(tag, k));
    lemma_some_first_row(tag, sig, k);
}

/// A part is what the structure finds for the signature.
proof fn lemma_part_is_found(tag: Seq<u8>, sig: Seq<u8>, b: Seq<u8>)
    ensures
        has_part(tag, sig, b) <==> sub_tag(tag_struct_of(tag), sig) == Some(b),
{
    reveal(has_part);
    if has_part(tag, sig, b) {
        let i = choose|i: int| #[trigger] is_first_row(tag, sig, i) && points_to(tag, i, b);
        lemma_first_row(tag, sig, i);
    }
    if sub_tag(tag_struct_of(tag), sig) == Some(b) {
        lemma_found_row(tag, sig);
        let i = choose|i: int| is_first_row(tag, sig, i);
        lemma_first_row(tag, sig, i);
        assert(is_first_row(tag, sig, i) && points_to(tag, i, b));
    }
}

/// Where a row has the signature, some row is the first that has it.
proof fn lemma_some_first_row(tag: Seq<u8>, sig: Seq<u8>, k: int)
    requires
        0 <= k < be32(tag, 12),
        tag.subrange(16 + 12 * k, 20 + 12 * k) == sig,
    ensures
        exists|i: int| is_first_row(tag, sig, i),
    decreases k,
{
    if exists|j: int| 0 <= j < k && #[trigger] tag.subrange(16 + 12 * j, 20 + 12 * j) == sig {
        let j = choose|j: int|
            0 <= j < k && #[trigger] tag.subrange(16 + 12 * j, 20 + 12 * j) == sig;
        lemma_some_first_row(tag, sig, j);
    } else {
        assert(is_first_row(tag, sig, k));
    }
}

/// The chromaticity that the numbers of an `fl32` array of 16 bytes or more give: the first number
/// is `x`, the second `y`, and the third, where there is one, `z`.
pub open spec fn told_by(b: Seq<u8>) -> Chromaticity {
    Chromaticity {
        x: be32(b, 8),
        y: be32(b, 12),
        z: if b.len() >= 20 {
            Some(be32(b, 16))
        } else {
            None
        },
    }
}

/// The bytes are an `fl32` array of two numbers at least.
pub open spec fn tells_chromaticity(b: Seq<u8>) -> bool {
    b.len() >= 16 && starts_with(b, 0x66, 0x6c, 0x33, 0x32)
}

/// A chromaticity takes its coordinates from the array in their order.
pub proof fn lemma_coordinates_stand_in_order(arr: Seq<u32>)
    requires
        arr.len() >= 2,
    ensures
        chromaticity_of(arr).x == arr[0],
        chromaticity_of(arr).y == arr[1],
        arr.len() >= 3 ==> chromaticity_of(arr).z == Some(arr[2]),
        arr.len() == 2 ==> chromaticity_of(arr).z is None,
{
}

/// A part that tells a chromaticity is read as the one it tells, and another part is an error.
proof fn lemma_part_tells_chromaticity(b: Seq<u8>)
    ensures
        tells_chromaticity(b) <==> is_fl32(b) && fl32_of(b).len() >= 2,
        tells_chromaticity(b) ==> chromaticity_of(fl32_of(b)) == told_by(b),
{
    lemma_numbers_follow_their_header(b, 0);
}

/// The letters of a sub-tag, of which all but the first are `XYZ`.
pub open spec fn xyz(first: u8) -> Seq<u8> {
    seq![first, 0x58u8, 0x59u8, 0x5au8]
}

/// The letters `func`.
pub open spec fn func() -> Seq<u8> {
    seq![0x66u8, 0x75u8, 0x6eu8, 0x63u8]
}

/// The letters `cept`.
pub open spec fn cept() -> Seq<u8> {
    seq![0x63u8, 0x65u8, 0x70u8, 0x74u8]
}

/// The signatures are their letters.
proof fn lemma_letters()
    ensures
        SIG_RED@ == xyz(0x72),
        SIG_GREEN@ == xyz(0x67),
        SIG_BLUE@ == xyz(0x62),
        SIG_WHITE@ == xyz(0x77),
        SIG_FUNC@ == func(),
        SIG_CEPT@ == cept(),
{
    assert(SIG_RED@ =~= xyz(0x72));
    assert(SIG_GREEN@ =~= xyz(0x67));
    assert(SIG_BLUE@ =~= xyz(0x62));
    assert(SIG_WHITE@ =~= xyz(0x77));
    assert(SIG_FUNC@ =~= func());
    assert(SIG_CEPT@ =~= cept());
}

/// Whether the tag is a structure of the kind `cept`.
pub open spec fn is_encoding(s: Seq<u8>, entry: int, size: int) -> bool {
    is_structure(s, entry, size) && tag_bytes(s, entry, size).subrange(8, 12) == cept()
}

/// An encoding is read as its structure.
proof fn lemma_encoding_is_told(s: Seq<u8>, entry: int, size: int)
    requires
        0 <= entry,
        0 <= size,
    ensures
        is_encoding(s, entry, size) ==> cept_of(s, entry, size) == shaper_of(
            tag_struct_of(tag_bytes(s, entry, size)),
        ),
        !is_encoding(s, entry, size) ==> cept_of(s, entry, size) == Ok::<
            Option<CeptView>,
            CmsError,
        >(None),
{
    lemma_structure_is_told_by_its_bytes(s, entry, size, 0);
    lemma_letters();
    assert(tag_bytes(s, entry, size) == range_of(s, entry, size));
}

/// What is found for one of the chromaticities.
proof fn lemma_chromaticity_part(tag: Seq<u8>, sig: Seq<u8>)
    ensures
        ({
            let ts = tag_struct_of(tag);
            &&& forall|b: Seq<u8>| #[trigger]
                has_part(tag, sig, b) ==> {
                    &&& chromaticity_ok(ts, sig) <==> tells_chromaticity(b)
                    &&& tells_chromaticity(b) ==> chromaticity_in(ts, sig) == Some(told_by(b))
                    &&& chromaticity_in(ts, sig) is Some
                }
            &&& chromaticity_in(ts, sig) is Some ==> exists|b: Seq<u8>| has_part(tag, sig, b)
            &&& !chromaticity_ok(ts, sig) ==> exists|b: Seq<u8>|
                #[trigger] has_part(tag, sig, b) && !tells_chromaticity(b)
        }),
{
    let ts = tag_struct_of(tag);
    assert forall|b: Seq<u8>| #[trigger] has_part(tag, sig, b) implies {
        &&& chromaticity_ok(ts, sig) <==> tells_chromaticity(b)
        &&& tells_chromaticity(b) ==> chromaticity_in(ts, sig) == Some(told_by(b))
        &&& chromaticity_in(ts, sig) is Some
    } by {
        lemma_part_is_found(tag, sig, b);
        lemma_part_tells_chromaticity(b);
    }
    if sub_tag(ts, sig) is Some {
        let b = sub_tag(ts, sig)->0;
        lemma_part_is_found(tag, sig, b);
        assert(has_part(tag, sig, b));
    }
}

/// A chromaticity that is found is told by a part.
proof fn lemma_told_part(tag: Seq<u8>, sig: Seq<u8>)
    requires
        chromaticity_ok(tag_struct_of(tag), sig),
        chromaticity_in(tag_struct_of(tag), sig) is Some,
    ensures
        exists|p: Seq<u8>| #[trigger]
            has_part(tag, sig, p) && tells_chromaticity(p) && chromaticity_in(
                tag_struct_of(tag),
                sig,
            ) == Some(told_by(p)),
{
    lemma_chromaticity_part(tag, sig);
    let p = choose|p: Seq<u8>| has_part(tag, sig, p);
    assert(has_part(tag, sig, p));
}

/// What is found for the transfer function.
proof fn lemma_function_part(tag: Seq<u8>)
    ensures
        ({
            let ts = tag_struct_of(tag);
            &&& forall|b: Seq<u8>| #[trigger]
                has_part(tag, func(), b) ==> function_in(ts) == if starts_with(
                    b,
                    0x63,
                    0x75,
                    0x72,
                    0x66,
                ) {
                    Some(b)
                } else {
                    None
                }
            &&& function_in(ts) is Some ==> has_part(tag, func(), function_in(ts)->0)
        }),
{
    let ts = tag_struct_of(tag);
    lemma_letters();
    assert forall|b: Seq<u8>| #[trigger] has_part(tag, func(), b) implies function_in(ts)
        == if starts_with(b, 0x63, 0x75, 0x72, 0x66) {
        Some(b)
    } else {
        None
    } by {
        lemma_part_is_found(tag, func(), b);
        lemma_numbers_are_stored_high_byte_first(b, 0);
    }
    if function_in(ts) is Some {
        lemma_part_is_found(tag, func(), function_in(ts)->0);
    }
}

/// What a structure with all its parts is read as.
proof fn lemma_complete_structure(
    ts: TagStructView,
    r: Chromaticity,
    g: Chromaticity,
    b: Chromaticity,
    w: Chromaticity,
    f: Seq<u8>,
)
    requires
        chromaticity_ok(ts, SIG_RED@) && chromaticity_in(ts, SIG_RED@) == Some(r),
        chromaticity_ok(ts, SIG_GREEN@) && chromaticity_in(ts, SIG_GREEN@) == Some(g),
        chromaticity_ok(ts, SIG_BLUE@) && chromaticity_in(ts, SIG_BLUE@) == Some(b),
        chromaticity_ok(ts, SIG_WHITE@) && chromaticity_in(ts, SIG_WHITE@) == Some(w),
        function_in(ts) == Some(f),
    ensures
        curve_error(f) is None ==> shaper_of(ts) == Ok::<Option<CeptView>, CmsError>(
            Some(
                CeptView {
                    red_xy: r,
                    green_xy: g,
                    blue_xy: b,
                    white_xy: w,
                    trc: CurveSourceView::Segmented { curve: curve_of(f), invert: true },
                    reference_name: None,
                },
            ),
        ),
        curve_error(f) is Some ==> shaper_of(ts) == Err::<Option<CeptView>, CmsError>(
            curve_error(f)->0,
        ),
{
}

/// What is read from a structure has all its parts.
proof fn lemma_read_structure_is_complete(ts: TagStructView)
    requires
        shaper_of(ts) is Ok,
        shaper_of(ts)->Ok_0 is Some,
    ensures
        ({
            let v = shaper_of(ts)->Ok_0->0;
            &&& chromaticity_ok(ts, SIG_RED@) && chromaticity_in(ts, SIG_RED@) == Some(v.red_xy)
            &&& chromaticity_ok(ts, SIG_GREEN@) && chromaticity_in(ts, SIG_GREEN@) == Some(
                v.green_xy,
            )
            &&& chromaticity_ok(ts, SIG_BLUE@) && chromaticity_in(ts, SIG_BLUE@) == Some(v.blue_xy)
            &&& chromaticity_ok(ts, SIG_WHITE@) && chromaticity_in(ts, SIG_WHITE@) == Some(
                v.white_xy,
            )
            &&& function_in(ts) is Some
            &&& curve_error(function_in(ts)->0) is None
            &&& v.trc == (CurveSourceView::Segmented {
                curve: curve_of(function_in(ts)->0),
                invert: true,
            })
            &&& v.reference_name is None
        }),
{
}

/// A colour encoding with all four chromaticities and a sound segmented curve is read as these:
/// each chromaticity is told by the sub-tag of its own letter, coordinate by coordinate, and the
/// tone curve is the inverse of the curve of the sub-tag `func`.
pub proof fn lemma_encoding_holds_what_its_parts_tell(
    s: Seq<u8>,
    entry: int,
    size: int,
    r: Seq<u8>,
    g: Seq<u8>,
    b: Seq<u8>,
    w: Seq<u8>,
    f: Seq<u8>,
)
    requires
        0 <= entry,
        0 <= size,
        is_encoding(s, entry, size),
        has_part(tag_bytes(s, entry, size), xyz(0x72), r) && tells_chromaticity(r),
        has_part(tag_bytes(s, entry, size), xyz(0x67), g) && tells_chromaticity(g),
        has_part(tag_bytes(s, entry, size), xyz(0x62), b) && tells_chromaticity(b),
        has_part(tag_bytes(s, entry, size), xyz(0x77), w) && tells_chromaticity(w),
        has_part(tag_bytes(s, entry, size), func(), f) && starts_with(f, 0x63, 0x75, 0x72, 0x66),
        curve_error(f) is None,
    ensures
        cept_of(s, entry, size) == Ok::<Option<CeptView>, CmsError>(
            Some(
                CeptView {
                    red_xy: told_by(r),
                    green_xy: told_by(g),
                    blue_xy: told_by(b),
                    white_xy: told_by(w),
                    trc: CurveSourceView::Segmented { curve: curve_of(f), invert: true },
                    reference_name: None,
                },
            ),
        ),
{
    let tag = tag_bytes(s, entry, size);
    lemma_letters();
    lemma_encoding_is_told(s, entry, size);
    lemma_chromaticity_part(tag, xyz(0x72));
    lemma_chromaticity_part(tag, xyz(0x67));
    lemma_chromaticity_part(tag, xyz(0x62));
    lemma_chromaticity_part(tag, xyz(0x77));
    lemma_function_part(tag);
    lemma_complete_structure(
        tag_struct_of(tag),
        told_by(r),
        told_by(g),
        told_by(b),
        told_by(w),
        f,
    );
}

/// What is read as a colour encoding has all its parts: the four chromaticities are told by the
/// sub-tags of their own letters, and the tone curve by the sub-tag `func`.
pub proof fn lemma_every_part_of_an_encoding_is_there(s: Seq<u8>, entry: int, size: int)
    requires
        0 <= entry,
        0 <= size,
        cept_of(s, entry, size) is Ok,
        cept_of(s, entry, size)->Ok_0 is Some,
    ensures
        is_encoding(s, entry, size),
        ({
            let tag = tag_bytes(s, entry, size);
            let v = cept_of(s, entry, size)->Ok_0->0;
            &&& exists|p: Seq<u8>| #[trigger]
                has_part(tag, xyz(0x72), p) && tells_chromaticity(p) && v.red_xy == told_by(p)
            &&& exists|p: Seq<u8>| #[trigger]
                has_part(tag, xyz(0x67), p) && tells_chromaticity(p) && v.green_xy == told_by(p)
            &&& exists|p: Seq<u8>| #[trigger]
                has_part(tag, xyz(0x62), p) && tells_chromaticity(p) && v.blue_xy == told_by(p)
            &&& exists|p: Seq<u8>| #[trigger]
                has_part(tag, xyz(0x77), p) && tells_chromaticity(p) && v.white_xy == told_by(p)
            &&& exists|p: Seq<u8>| #[trigger]
                has_part(tag, func(), p) && starts_with(p, 0x63, 0x75, 0x72, 0x66) && curve_error(
                    p,
                ) is None && v.trc == (CurveSourceView::Segmented {
                    curve: curve_of(p),
                    invert: true,
                })
            &&& v.reference_name is None
        }),
{
    let tag = tag_bytes(s, entry, size);
    lemma_letters();
    lemma_encoding_is_told(s, entry, size);
    lemma_function_part(tag);
    let ts = tag_struct_of(tag);
    lemma_read_structure_is_complete(ts);
    lemma_told_part(tag, xyz(0x72));
    lemma_told_part(tag, xyz(0x67));
    lemma_told_part(tag, xyz(0x62));
    lemma_told_part(tag, xyz(0x77));
    assert(has_part(tag, func(), function_in(ts)->0));
}

/// A part with one of the four letters.
pub open spec fn is_colour(sig: Seq<u8>) -> bool {
    sig == xyz(0x72) || sig == xyz(0x67) || sig == xyz(0x62) || sig == xyz(0x77)
}

/// A chromaticity that is there and cannot be read is an error, whatever else is missing.
pub proof fn lemma_unreadable_chromaticity_is_an_error(
    s: Seq<u8>,
    entry: int,
    size: int,
    sig: Seq<u8>,
    p: Seq<u8>,
)
    requires
        0 <= entry,
        0 <= size,
        is_encoding(s, entry, size),
        is_colour(sig),
        has_part(tag_bytes(s, entry, size), sig, p),
        !tells_chromaticity(p),
    ensures
        cept_of(s, entry, size) == Err::<Option<CeptView>, CmsError>(CmsError::InvalidProfile),
{
    let tag = tag_bytes(s, entry, size);
    lemma_letters();
    lemma_encoding_is_told(s, entry, size);
    lemma_chromaticity_part(tag, sig);
}

/// An encoding without one of the chromaticities, or without a segmented curve for the transfer
/// function, is passed over, as long as every chromaticity that is there can be read.
pub proof fn lemma_incomplete_encoding_is_passed_over(
    s: Seq<u8>,
    entry: int,
    size: int,
    sig: Seq<u8>,
)
    requires
        0 <= entry,
        0 <= size,
        is_encoding(s, entry, size),
        forall|c: Seq<u8>, p: Seq<u8>|
            is_colour(c) && #[trigger] has_part(tag_bytes(s, entry, size), c, p)
                ==> tells_chromaticity(p),
        ({
            ||| is_colour(sig) && forall|p: Seq<u8>|
                !#[trigger] has_part(tag_bytes(s, entry, size), sig, p)
            ||| forall|p: Seq<u8>| #[trigger]
                has_part(tag_bytes(s, entry, size), func(), p) ==> !starts_with(
                    p,
                    0x63,
                    0x75,
                    0x72,
                    0x66,
                )
        }),
    ensures
        cept_of(s, entry, size) == Ok::<Option<CeptView>, CmsError>(None),
{
    let tag = tag_bytes(s, entry, size);
    lemma_letters();
    lemma_encoding_is_told(s, entry, size);
    lemma_chromaticity_part(tag, xyz(0x72));
    lemma_chromaticity_part(tag, xyz(0x67));
    lemma_chromaticity_part(tag, xyz(0x62));
    lemma_chromaticity_part(tag, xyz(0x77));
    lemma_function_part(tag);
}

/// What is wrong with the curve of an encoding that has its four chromaticities is what is wrong
/// with the encoding.
pub proof fn lemma_broken_curve_is_an_error(
    s: Seq<u8>,
    entry: int,
    size: int,
    r: Seq<u8>,
    g: Seq<u8>,
    b: Seq<u8>,
    w: Seq<u8>,
    f: Seq<u8>,
)
    requires
        0 <= entry,
        0 <= size,
        is_encoding(s, entry, size),
        has_part(tag_bytes(s, entry, size), xyz(0x72), r) && tells_chromaticity(r),
        has_part(tag_bytes(s, entry, size), xyz(0x67), g) && tells_chromaticity(g),
        has_part(tag_bytes(s, entry, size), xyz(0x62), b) && tells_chromaticity(b),
        has_part(tag_bytes(s, entry, size), xyz(0x77), w) && tells_chromaticity(w),
        has_part(tag_bytes(s, entry, size), func(), f) && starts_with(f, 0x63, 0x75, 0x72, 0x66),
        curve_error(f) is Some,
    ensures
        cept_of(s, entry, size) == Err::<Option<CeptView>, CmsError>(curve_error(f)->0),
{
    let tag = tag_bytes(s, entry, size);
    lemma_letters();
    lemma_encoding_is_told(s, entry, size);
    lemma_chromaticity_part(tag, xyz(0x72));
    lemma_chromaticity_part(tag, xyz(0x67));
    lemma_chromaticity_part(tag, xyz(0x62));
    lemma_chromaticity_part(tag, xyz(0x77));
    lemma_function_part(tag);
    lemma_complete_structure(
        tag_struct_of(tag),
        told_by(r),
        told_by(g),
        told_by(b),
        told_by(w),
        f,
    );
}

/// A tag that is no structure of the kind `cept` is passed over.
pub proof fn lemma_other_tag_is_passed_over(s: Seq<u8>, entry: int, size: int)
    requires
        0 <= entry,
        0 <= size,
        !is_encoding(s, entry, size),
    ensures
        cept_of(s, entry, size) == Ok::<Option<CeptView>, CmsError>(None),
{
    lemma_encoding_is_told(s, entry, size);
}

} // verus!
