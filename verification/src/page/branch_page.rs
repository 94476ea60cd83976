//! Element headers packed inside a branch page's payload.

use vstd::prelude::*;
use vstd::bytes::{
    lemma_auto_spec_u32_to_from_le_bytes, lemma_auto_spec_u64_to_from_le_bytes,
    spec_u32_from_le_bytes, spec_u32_to_le_bytes, spec_u64_from_le_bytes, spec_u64_to_le_bytes,
};
use vstd::slice::slice_subrange;
use crate::page::Pgid;

verus! {

/// Size in bytes of one encoded branch element header on disk.
pub const BRANCH_PAGE_ELEMENT_SIZE: usize = 16;

/// Element header on a branch page: locates one routing key inside the
/// page's payload. `pos` is the byte offset of the key, which is `ksize`
/// bytes long; `pgid` is the child page the key range routes to. Branch
/// pages carry no values.
#[derive(Debug, Clone, Copy, PartialEq, Eq)]
pub struct BranchPageElement {
    pub pos: u32,
    pub ksize: u32,
    pub pgid: Pgid,
}

/// The element header encoded little-endian at index `i` of a branch page
/// payload: four-byte pos and ksize, then an eight-byte child page id,
/// sixteen bytes in all.
pub open spec fn spec_branch_element_at(data: Seq<u8>, i: int) -> BranchPageElement {
    BranchPageElement {
        pos: spec_u32_from_le_bytes(data.subrange(16 * i, 16 * i + 4)),
        ksize: spec_u32_from_le_bytes(data.subrange(16 * i + 4, 16 * i + 8)),
        pgid: spec_u64_from_le_bytes(data.subrange(16 * i + 8, 16 * i + 16)),
    }
}

/// The sixteen-byte wire encoding of a branch element header.
pub open spec fn spec_branch_element_bytes(e: BranchPageElement) -> Seq<u8> {
    spec_u32_to_le_bytes(e.pos) + spec_u32_to_le_bytes(e.ksize) + spec_u64_to_le_bytes(e.pgid)
}

/// Writing an element header into a buffer and decoding it at the same
/// index reproduces the header exactly.
pub proof fn lemma_branch_element_round_trip(data: Seq<u8>, i: int, e: BranchPageElement)
    requires
        0 <= i,
        16 * i + 16 <= data.len(),
        data.subrange(16 * i, 16 * i + 16) == spec_branch_element_bytes(e),
    ensures
        spec_branch_element_at(data, i) == e,
{
    lemma_auto_spec_u32_to_from_le_bytes();
    lemma_auto_spec_u64_to_from_le_bytes();
    let chunk = data.subrange(16 * i, 16 * i + 16);
    assert(data.subrange(16 * i, 16 * i + 4) =~= chunk.subrange(0, 4));
    assert(data.subrange(16 * i + 4, 16 * i + 8) =~= chunk.subrange(4, 8));
    assert(data.subrange(16 * i + 8, 16 * i + 16) =~= chunk.subrange(8, 16));
    assert(chunk.subrange(0, 4) =~= spec_u32_to_le_bytes(e.pos));
    assert(chunk.subrange(4, 8) =~= spec_u32_to_le_bytes(e.ksize));
    assert(chunk.subrange(8, 16) =~= spec_u64_to_le_bytes(e.pgid));
}

impl BranchPageElement {
    /// The key bytes of this element: `page_data[pos .. pos + ksize]`,
    /// or nothing when that range does not lie inside the buffer.
    pub fn key<'a>(&self, page_data: &'a [u8]) -> (r: Option<&'a [u8]>)
        ensures
            match r {
                Some(k) => self.pos + self.ksize <= page_data@.len() && k@ == page_data@.subrange(
                    self.pos as int,
                    self.pos + self.ksize,
                ),
                None => self.pos + self.ksize > page_data@.len(),
            },
    {
        let n = page_data.len();
        let start = self.pos as usize;
        match start.checked_add(self.ksize as usize) {
            Some(end) => {
                if end <= n {
                    Some(slice_subrange(page_data, start, end))
                } else {
                    None
                }
            },
            None => None,
        }
    }
}

} // verus!
