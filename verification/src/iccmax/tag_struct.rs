//! Tag structures: `tstr` tags, which hold a table of sub-tags.

use crate::bytes::{be32, range_error, range_of, read_be32, read_four, take_range};
use crate::err::CmsError;
use vstd::prelude::*;
use vstd::slice::slice_subrange;

verus! {

/// The signature `tstr`.
pub const SIG_TSTR: u32 = 0x7473_7472;

/// One row of the sub-tag table.
#[derive(Clone, Copy, Debug)]
pub struct TagStructEntry {
    pub sig: [u8; 4],
    /// Where the sub-tag starts, counted from the start of the structure.
    pub offset: usize,
    pub size: usize,
}

/// A tag structure.
#[derive(Clone, Debug)]
pub struct TagStruct<'a> {
    /// What kind of structure this is, such as `cept` or `brdf`.
    pub struct_id: [u8; 4],
    /// All bytes of the tag.
    pub blob: &'a [u8],
    pub entries: Vec<TagStructEntry>,
}

/// A row of the table: the signature, the offset and the size.
pub struct EntryView {
    pub sig: Seq<u8>,
    pub offset: int,
    pub size: int,
}

impl View for TagStructEntry {
    type V = EntryView;

    open spec fn view(&self) -> EntryView {
        EntryView { sig: self.sig@, offset: self.offset as int, size: self.size as int }
    }
}

/// What a tag structure holds.
pub struct TagStructView {
    pub struct_id: Seq<u8>,
    pub blob: Seq<u8>,
    pub entries: Seq<EntryView>,
}

impl<'a> View for TagStruct<'a> {
    type V = TagStructView;

    open spec fn view(&self) -> TagStructView {
        TagStructView {
            struct_id: self.struct_id@,
            blob: self.blob@,
            entries: self.entries@.map_values(|e: TagStructEntry| e@),
        }
    }
}

/// The row of the table at index `i` of the tag `blob`.
pub open spec fn table_row(blob: Seq<u8>, i: int) -> EntryView {
    EntryView {
        sig: range_of(blob, 16 + 12 * i, 4),
        offset: be32(blob, 16 + 12 * i + 4) as int,
        size: be32(blob, 16 + 12 * i + 8) as int,
    }
}

/// What the bytes of a `tstr` tag hold.
pub open spec fn tag_struct_of(blob: Seq<u8>) -> TagStructView {
    TagStructView {
        struct_id: range_of(blob, 8, 4),
        blob,
        entries: Seq::new(be32(blob, 12) as nat, |i: int| table_row(blob, i)),
    }
}

/// Why the tag of `size` bytes at `entry` is no tag structure.
pub open spec fn tag_struct_error(s: Seq<u8>, entry: int, size: int) -> Option<CmsError> {
    if size < 16 {
        Some(CmsError::InvalidProfile)
    } else if range_error(s.len() as int, entry, size) is Some {
        range_error(s.len() as int, entry, size)
    } else if be32(s, entry) != SIG_TSTR {
        Some(CmsError::InvalidProfile)
    } else {
        range_error(size, 16, be32(s, entry + 12) * 12)
    }
}

impl TagStructView {
    /// The first row with the signature `sig`.
    pub open spec fn find(self, sig: Seq<u8>) -> Option<EntryView> {
        if exists|i: int| 0 <= i < self.entries.len() && #[trigger] self.entries[i].sig == sig {
            Some(self.entries[self.first(sig)])
        } else {
            None
        }
    }

    /// The index of the first row with the signature `sig`, where there is one.
    pub open spec fn first(self, sig: Seq<u8>) -> int {
        choose|i: int|
            0 <= i < self.entries.len() && #[trigger] self.entries[i].sig == sig && (forall|j: int|
                0 <= j < i ==> #[trigger] self.entries[j].sig != sig)
    }

    /// The bytes that a row points to, where they lie in the tag.
    pub open spec fn slice(self, e: EntryView) -> Option<Seq<u8>> {
        if e.offset + e.size <= self.blob.len() {
            Some(range_of(self.blob, e.offset, e.size))
        } else {
            None
        }
    }
}

/// Compares two signatures.
pub fn same_sig(a: &[u8; 4], b: &[u8; 4]) -> (r: bool)
    ensures
        r == (a@ == b@),
{
    let r = a[0] == b[0] && a[1] == b[1] && a[2] == b[2] && a[3] == b[3];
    assert(r ==> a@ =~= b@);
    r
}

impl<'a> TagStruct<'a> {
    /// Reads the `tstr` tag of `tag_size` bytes at `entry`.
    pub fn read(slice: &'a [u8], entry: usize, tag_size: usize) -> (r: Result<Self, CmsError>)
        ensures
            match tag_struct_error(slice@, entry as int, tag_size as int) {
                Some(e) => r == Err::<Self, CmsError>(e),
                None => r is Ok && r->Ok_0@ == tag_struct_of(
                    range_of(slice@, entry as int, tag_size as int),
                ),
            },
    {
        if tag_size < 16 {
            return Err(CmsError::InvalidProfile);
        }
        let blob = take_range(slice, entry, tag_size)?;
        if read_be32(blob, 0) != SIG_TSTR {
            return Err(CmsError::InvalidProfile);
        }
        let struct_id = read_four(blob, 8);
        let n: usize = read_be32(blob, 12) as usize;
        let rows: usize = match n.checked_mul(12) {
            Some(rows) => rows,
            None => return Err(CmsError::OverflowingError),
        };
        take_range(blob, 16, rows)?;
        let mut entries: Vec<TagStructEntry> = Vec::new();
        for i in 0..n
            invariant
                blob.len() == blob@.len(),
                16 + 12 * n <= blob@.len(),
                entries@.len() == i,
                forall|j: int| 0 <= j < i ==> #[trigger] entries@[j]@ == table_row(blob@, j),
        {
            let off: usize = 16 + i * 12;
            let sig = read_four(blob, off);
            let offset: usize = read_be32(blob, off + 4) as usize;
            let size: usize = read_be32(blob, off + 8) as usize;
            entries.push(TagStructEntry { sig, offset, size });
        }
        let r = TagStruct { struct_id, blob, entries };
        assert(r@.entries =~= tag_struct_of(blob@).entries);
        Ok(r)
    }

    /// Finds a sub-tag by its signature.
    pub fn find(&self, sig: &[u8; 4]) -> (r: Option<&TagStructEntry>)
        ensures
            match self@.find(sig@) {
                Some(e) => r is Some && r->0@ == e,
                None => r is None,
            },
    {
        for i in 0..self.entries.len()
            invariant
                forall|j: int| 0 <= j < i ==> #[trigger] self@.entries[j].sig != sig@,
        {
            assert(self@.entries[i as int] == self.entries@[i as int]@);
            if same_sig(&self.entries[i].sig, sig) {
                assert(self@.entries[i as int].sig == sig@);
                let ghost k = self@.first(sig@);
                assert(self@.entries[k].sig == sig@);
                assert(k == i);
                return Some(&self.entries[i]);
            }
        }
        None
    }

    /// The bytes of a sub-tag, where they lie in the tag.
    pub fn slice(&self, entry: &TagStructEntry) -> (r: Option<&'a [u8]>)
        ensures
            match self@.slice(entry@) {
                Some(bytes) => r is Some && r->0@ == bytes,
                None => r is None,
            },
    {
        assert(self.blob.len() == self.blob@.len());
        match entry.offset.checked_add(entry.size) {
            None => None,
            Some(end) => if end <= self.blob.len() {
                Some(slice_subrange(self.blob, entry.offset, end))
            } else {
                None
            },
        }
    }
}

} // verus!
