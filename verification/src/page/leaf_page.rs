//! Element headers packed inside a leaf page's payload.

use vstd::prelude::*;
use vstd::bytes::{lemma_auto_spec_u32_to_from_le_bytes, spec_u32_from_le_bytes, spec_u32_to_le_bytes};
use vstd::slice::slice_subrange;

verus! {

/// Size in bytes of one encoded leaf element header on disk.
pub const LEAF_PAGE_ELEMENT_SIZE: usize = 16;

/// Element header on a leaf page: locates one key/value pair inside the
/// page's payload. `pos` is the byte offset of the key, which is `ksize`
/// bytes long; the value immediately follows the key for `vsize` bytes.
/// Bit 0x01 of `flags` marks the entry as a nested-bucket header.
#[derive(Debug, Clone, Copy, PartialEq, Eq)]
pub struct LeafPageElement {
    pub flags: u32,
    pub pos: u32,
    pub ksize: u32,
    pub vsize: u32,
}

/// The element header encoded little-endian at index `i` of a leaf page
/// payload: four-byte flags, pos, ksize and vsize, sixteen bytes in all.
pub open spec fn spec_leaf_element_at(data: Seq<u8>, i: int) -> LeafPageElement {
    LeafPageElement {
        flags: spec_u32_from_le_bytes(data.subrange(16 * i, 16 * i + 4)),
        pos: spec_u32_from_le_bytes(data.subrange(16 * i + 4, 16 * i + 8)),
        ksize: spec_u32_from_le_bytes(data.subrange(16 * i + 8, 16 * i + 12)),
        vsize: spec_u32_from_le_bytes(data.subrange(16 * i + 12, 16 * i + 16)),
    }
}

/// The sixteen-byte wire encoding of a leaf element header.
pub open spec fn spec_leaf_element_bytes(e: LeafPageElement) -> Seq<u8> {
    spec_u32_to_le_bytes(e.flags) + spec_u32_to_le_bytes(e.pos) + spec_u32_to_le_bytes(e.ksize)
        + spec_u32_to_le_bytes(e.vsize)
}

/// Writing an element header into a buffer and decoding it at the same
/// index reproduces the header exactly.
pub proof fn lemma_leaf_element_round_trip(data: Seq<u8>, i: int, e: LeafPageElement)
    requires
        0 <= i,
        16 * i + 16 <= data.len(),
        data.subrange(16 * i, 16 * i + 16) == spec_leaf_element_bytes(e),
    ensures
        spec_leaf_element_at(data, i) == e,
{
    lemma_auto_spec_u32_to_from_le_bytes();
    let chunk = data.subrange(16 * i, 16 * i + 16);
    assert(data.subrange(16 * i, 16 * i + 4) =~= chunk.subrange(0, 4));
    assert(data.subrange(16 * i + 4, 16 * i + 8) =~= chunk.subrange(4, 8));
    assert(data.subrange(16 * i + 8, 16 * i + 12) =~= chunk.subrange(8, 12));
    assert(data.subrange(16 * i + 12, 16 * i + 16) =~= chunk.subrange(12, 16));
    assert(chunk.subrange(0, 4) =~= spec_u32_to_le_bytes(e.flags));
    assert(chunk.subrange(4, 8) =~= spec_u32_to_le_bytes(e.pos));
    assert(chunk.subrange(8, 12) =~= spec_u32_to_le_bytes(e.ksize));
    assert(chunk.subrange(12, 16) =~= spec_u32_to_le_bytes(e.vsize));
}

impl LeafPageElement {
    /// The key bytes of this element: `page_data[pos .. pos + ksize]`,
    /// or nothing when that range does not lie inside the buffer.
    pub fn key<'a>(&self, page_data: &'a [u8]) -> (r: Option<&'a [u8]>)
        ensures
            match r {
                Some(k) => self.pos + self.ksize <= page_data@.len() && k@ == page_data@.subrange(
                    self.pos as int,
                    self.pos + self.ksize,
                ),
                None => self.pos + self.ksize > page_data@.len(),
            },
    {
        let n = page_data.len();
        let start = self.pos as usize;
        match start.checked_add(self.ksize as usize) {
            Some(end) => {
                if end <= n {
                    Some(slice_subrange(page_data, start, end))
                } else {
                    None
                }
            },
            None => None,
        }
    }

    /// The value bytes of this element: `page_data[pos + ksize .. pos +
    /// ksize + vsize]`, or nothing when that range does not lie inside the
    /// buffer.
    pub fn value<'a>(&self, page_data: &'a [u8]) -> (r: Option<&'a [u8]>)
        ensures
            match r {
                Some(v) => self.pos + self.ksize + self.vsize <= page_data@.len() && v@
                    == page_data@.subrange(
                    self.pos + self.ksize,
                    self.pos + self.ksize + self.vsize,
                ),
                None => self.pos + self.ksize + self.vsize > page_data@.len(),
            },
    {
        let n = page_data.len();
        match (self.pos as usize).checked_add(self.ksize as usize) {
            Some(start) => {
                match start.checked_add(self.vsize as usize) {
                    Some(end) => {
                        if end <= n {
                            Some(slice_subrange(page_data, start, end))
                        } else {
                            None
                        }
                    },
                    None => None,
                }
            },
            None => None,
        }
    }
}

} // verus!
