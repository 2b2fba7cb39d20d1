//! `utf8` text tags.

use crate::bytes::{
    be32, lemma_numbers_are_stored_high_byte_first, range_error, range_of, read_be32, take_range,
};
use crate::err::CmsError;
use vstd::prelude::*;
use vstd::slice::slice_subrange;
use vstd::string::*;
use vstd::utf8::{decode_utf8, valid_utf8};

verus! {

/// The signature `utf8`.
pub const SIG_UTF8: u32 = 0x7574_6638;

/// The text that `String::from_utf8_lossy` of std makes of bytes.
pub uninterp spec fn utf8_lossy(bytes: Seq<u8>) -> Seq<char>;

/// `String::from_utf8_lossy` of std, made into a `String` of its own. Bytes that are UTF-8
/// give the text they encode. In other bytes each malformed stretch gives a replacement
/// character; where the stretches begin and end is left unsaid.
#[verifier::external_body]
fn from_utf8_lossy(bytes: &[u8]) -> (text: String)
    ensures
        text@ == utf8_lossy(bytes@),
        valid_utf8(bytes@) ==> text@ == decode_utf8(bytes@),
{
    String::from_utf8_lossy(bytes).into_owned()
}

/// A text without the NULs at its end.
pub open spec fn without_trailing_nuls(text: Seq<char>) -> Seq<char>
    decreases text.len(),
{
    if text.len() > 0 && text.last() == '\0' {
        without_trailing_nuls(text.drop_last())
    } else {
        text
    }
}

/// Strips the NULs at the end of a text.
pub fn strip_trailing_nuls(text: &str) -> (r: String)
    ensures
        r@ == without_trailing_nuls(text@),
{
    let mut end: usize = text.unicode_len();
    assert(text@.take(end as int) =~= text@);
    while end > 0 && text.get_char(end - 1) == '\0'
        invariant
            end <= text@.len(),
            without_trailing_nuls(text@) == without_trailing_nuls(text@.take(end as int)),
        ensures
            end <= text@.len(),
            without_trailing_nuls(text@) == without_trailing_nuls(text@.take(end as int)),
            end > 0 ==> text@[end - 1] != '\0',
        decreases end,
    {
        assert(text@.take(end as int).drop_last() =~= text@.take(end - 1));
        end = end - 1;
    }
    assert(without_trailing_nuls(text@.take(end as int)) == text@.take(end as int));
    assert(text@.subrange(0, end as int) =~= text@.take(end as int));
    text.substring_char(0, end).to_owned()
}

/// Why the tag of `size` bytes at `entry` is no text tag.
pub open spec fn utf8_tag_error(s: Seq<u8>, entry: int, size: int) -> Option<CmsError> {
    if size < 8 {
        Some(CmsError::InvalidProfile)
    } else if range_error(s.len() as int, entry, size) is Some {
        range_error(s.len() as int, entry, size)
    } else if be32(s, entry) != SIG_UTF8 {
        Some(CmsError::InvalidProfile)
    } else {
        None
    }
}

/// Reads the text of the tag of `tag_size` bytes at `entry`. The NULs at its end are stripped.
pub fn read_utf8_tag(slice: &[u8], entry: usize, tag_size: usize) -> (r: Result<String, CmsError>)
    ensures
        match utf8_tag_error(slice@, entry as int, tag_size as int) {
            Some(e) => r == Err::<String, CmsError>(e),
            None => r is Ok && r->Ok_0@ == without_trailing_nuls(
                utf8_lossy(range_of(slice@, entry + 8, tag_size - 8)),
            ),
        },
        ({
            let text = range_of(slice@, entry + 8, tag_size - 8);
            utf8_tag_error(slice@, entry as int, tag_size as int) is None && valid_utf8(text)
                ==> r->Ok_0@ == without_trailing_nuls(decode_utf8(text))
        }),
{
    if tag_size < 8 {
        return Err(CmsError::InvalidProfile);
    }
    let blob = take_range(slice, entry, tag_size)?;
    if read_be32(blob, 0) != SIG_UTF8 {
        return Err(CmsError::InvalidProfile);
    }
    let text = slice_subrange(blob, 8, blob.len());
    assert(text@ =~= range_of(slice@, entry + 8, tag_size - 8));
    Ok(strip_trailing_nuls(from_utf8_lossy(text).as_str()))
}

/// A text tag is told by its first four bytes, and has a header of eight. It has to lie in the
/// profile, with an end that can be counted.
pub proof fn lemma_text_tag_is_told_by_its_bytes(s: Seq<u8>, entry: int, size: int)
    requires
        0 <= entry,
        0 <= size,
    ensures
        utf8_tag_error(s, entry, size) is None <==> {
            &&& size >= 8
            &&& entry + size <= s.len()
            &&& entry + size <= usize::MAX
            &&& s[entry] == 0x75 && s[entry + 1] == 0x74 && s[entry + 2] == 0x66 && s[entry + 3]
                == 0x38
        },
        utf8_tag_error(s, entry, size) == Some(CmsError::OverflowingError) <==> size >= 8 && entry
            + size > usize::MAX,
{
    lemma_numbers_are_stored_high_byte_first(s, entry);
}

} // verus!
