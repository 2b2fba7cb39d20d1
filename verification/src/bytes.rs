//! Big-endian numbers and sub-ranges of a profile's bytes.

use crate::err::CmsError;
use vstd::prelude::*;
use vstd::slice::slice_subrange;

verus! {

/// The 16-bit number stored at `i`, high byte first.
pub open spec fn be16(s: Seq<u8>, i: int) -> u16 {
    (s[i] * 0x100 + s[i + 1]) as u16
}

/// The 32-bit number stored at `i`, high byte first.
pub open spec fn be32(s: Seq<u8>, i: int) -> u32 {
    (s[i] * 0x100_0000 + s[i + 1] * 0x1_0000 + s[i + 2] * 0x100 + s[i + 3]) as u32
}

/// `n` 32-bit numbers stored one after the other from `i` on.
pub open spec fn be32_list(s: Seq<u8>, i: int, n: nat) -> Seq<u32> {
    Seq::new(n, |k: int| be32(s, i + 4 * k))
}

/// The `size` bytes from `offset` on.
pub open spec fn range_of(s: Seq<u8>, offset: int, size: int) -> Seq<u8> {
    s.subrange(offset, offset + size)
}

/// Why the `size` bytes from `offset` on cannot be taken out of `len` bytes.
pub open spec fn range_error(len: int, offset: int, size: int) -> Option<CmsError> {
    if offset + size > usize::MAX {
        Some(CmsError::OverflowingError)
    } else if offset + size > len {
        Some(CmsError::InvalidProfile)
    } else {
        None
    }
}

/// Reads the 16-bit number at `i`.
pub fn read_be16(s: &[u8], i: usize) -> (r: u16)
    requires
        i + 2 <= s@.len(),
    ensures
        r == be16(s@, i as int),
{
    s[i] as u16 * 0x100 + s[i + 1] as u16
}

/// Reads the 32-bit number at `i`.
pub fn read_be32(s: &[u8], i: usize) -> (r: u32)
    requires
        i + 4 <= s@.len(),
    ensures
        r == be32(s@, i as int),
{
    s[i] as u32 * 0x100_0000 + s[i + 1] as u32 * 0x1_0000 + s[i + 2] as u32 * 0x100
        + s[i + 3] as u32
}

/// Copies the four bytes at `i`.
pub fn read_four(s: &[u8], i: usize) -> (r: [u8; 4])
    requires
        i + 4 <= s@.len(),
    ensures
        r@ == range_of(s@, i as int, 4),
{
    let r: [u8; 4] = [s[i], s[i + 1], s[i + 2], s[i + 3]];
    assert(r@ =~= range_of(s@, i as int, 4));
    r
}

/// Reads `n` 32-bit numbers from `i` on.
pub fn read_be32_list(s: &[u8], i: usize, n: usize) -> (r: Vec<u32>)
    requires
        i + 4 * n <= s@.len(),
    ensures
        r@ == be32_list(s@, i as int, n as nat),
{
    let mut r: Vec<u32> = Vec::new();
    for k in 0..n
        invariant
            s.len() == s@.len(),
            i + 4 * n <= s@.len(),
            r@.len() == k,
            forall|j: int| 0 <= j < k ==> r@[j] == be32(s@, i + 4 * j),
    {
        r.push(read_be32(s, i + 4 * k));
    }
    assert(r@ =~= be32_list(s@, i as int, n as nat));
    r
}

/// Takes the `size` bytes from `offset` on.
pub fn take_range<'a>(s: &'a [u8], offset: usize, size: usize) -> (r: Result<&'a [u8], CmsError>)
    ensures
        match range_error(s@.len() as int, offset as int, size as int) {
            Some(e) => r == Err::<&'a [u8], CmsError>(e),
            None => r is Ok && r->Ok_0@ == range_of(s@, offset as int, size as int),
        },
{
    match offset.checked_add(size) {
        None => Err(CmsError::OverflowingError),
        Some(end) => if end > s.len() {
            Err(CmsError::InvalidProfile)
        } else {
            Ok(slice_subrange(s, offset, end))
        },
    }
}

/// Numbers are stored with the high byte first: divided by powers of 256 they give back the bytes,
/// one by one.
pub proof fn lemma_numbers_are_stored_high_byte_first(s: Seq<u8>, i: int)
    ensures
        be16(s, i) / 0x100 == s[i],
        be16(s, i) % 0x100 == s[i + 1],
        be32(s, i) / 0x100_0000 == s[i],
        be32(s, i) / 0x1_0000 % 0x100 == s[i + 1],
        be32(s, i) / 0x100 % 0x100 == s[i + 2],
        be32(s, i) % 0x100 == s[i + 3],
{
}

/// Listed numbers stand four bytes apart.
pub proof fn lemma_listed_numbers_stand_four_bytes_apart(s: Seq<u8>, i: int, n: nat, k: int)
    requires
        0 <= k < n,
    ensures
        be32_list(s, i, n).len() == n,
        be32_list(s, i, n)[k] == be32(s, i + 4 * k),
{
}

/// A range holds its bytes and no others.
pub proof fn lemma_range_holds_its_bytes(s: Seq<u8>, offset: int, size: int, k: int)
    requires
        0 <= offset,
        0 <= k < size,
        offset + size <= s.len(),
    ensures
        range_of(s, offset, size).len() == size,
        range_of(s, offset, size)[k] == s[offset + k],
{
}

/// A range can be taken where it ends within the bytes. Its end has to be a number that can be
/// counted in the first place.
pub proof fn lemma_range_has_to_end_within_the_bytes(len: int, offset: int, size: int)
    ensures
        range_error(len, offset, size) is None <==> offset + size <= len && offset + size
            <= usize::MAX,
        range_error(len, offset, size) == Some(CmsError::OverflowingError) <==> offset + size
            > usize::MAX,
        range_error(len, offset, size) == Some(CmsError::InvalidProfile) <==> len < offset + size
            <= usize::MAX,
{
}

} // verus!
