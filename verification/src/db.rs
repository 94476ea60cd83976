//! The database metadata record embedded in a meta page's payload.

use vstd::prelude::*;
use vstd::bytes::{
    lemma_auto_spec_u32_to_from_le_bytes, lemma_auto_spec_u64_to_from_le_bytes,
    spec_u32_from_le_bytes, spec_u32_to_le_bytes, spec_u64_from_le_bytes, spec_u64_to_le_bytes,
};
use crate::page::Pgid;

verus! {

/// Size in bytes of the encoded meta record at the start of a meta page's
/// payload.
pub const META_SIZE: usize = 48;

/// Database metadata record. All fields are stored little-endian, in field
/// order, at the start of a meta page's payload. The checksum is an
/// integrity sum over the preceding fields; recomputing and comparing it,
/// and choosing between the two meta pages by transaction id, belong to
/// the transaction layer, not to this decoding core.
#[derive(Debug, Clone, Copy, PartialEq, Eq)]
pub struct Meta {
    /// Page format version.
    pub version: u32,
    /// Configured page size in bytes.
    pub page_size: u32,
    /// Page id of the root bucket.
    pub root: Pgid,
    /// Page id of the freelist page.
    pub freelist: Pgid,
    /// High-water mark: the next page id to allocate.
    pub pgid: Pgid,
    /// Id of the transaction that wrote this meta record.
    pub txid: u64,
    /// Integrity checksum over the preceding fields.
    pub checksum: u64,
}

/// The meta record encoded little-endian at the start of `data`.
pub open spec fn spec_meta(data: Seq<u8>) -> Meta {
    Meta {
        version: spec_u32_from_le_bytes(data.subrange(0, 4)),
        page_size: spec_u32_from_le_bytes(data.subrange(4, 8)),
        root: spec_u64_from_le_bytes(data.subrange(8, 16)),
        freelist: spec_u64_from_le_bytes(data.subrange(16, 24)),
        pgid: spec_u64_from_le_bytes(data.subrange(24, 32)),
        txid: spec_u64_from_le_bytes(data.subrange(32, 40)),
        checksum: spec_u64_from_le_bytes(data.subrange(40, 48)),
    }
}

/// The forty-eight-byte wire encoding of a meta record.
pub open spec fn spec_meta_bytes(m: Meta) -> Seq<u8> {
    spec_u32_to_le_bytes(m.version) + spec_u32_to_le_bytes(m.page_size) + spec_u64_to_le_bytes(
        m.root,
    ) + spec_u64_to_le_bytes(m.freelist) + spec_u64_to_le_bytes(m.pgid) + spec_u64_to_le_bytes(
        m.txid,
    ) + spec_u64_to_le_bytes(m.checksum)
}

/// Writing a meta record at the start of a buffer and decoding it again
/// reproduces the record exactly.
pub proof fn lemma_meta_round_trip(data: Seq<u8>, m: Meta)
    requires
        48 <= data.len(),
        data.subrange(0, 48) == spec_meta_bytes(m),
    ensures
        spec_meta(data) == m,
{
    lemma_auto_spec_u32_to_from_le_bytes();
    lemma_auto_spec_u64_to_from_le_bytes();
    let chunk = data.subrange(0, 48);
    assert(data.subrange(0, 4) =~= chunk.subrange(0, 4));
    assert(data.subrange(4, 8) =~= chunk.subrange(4, 8));
    assert(data.subrange(8, 16) =~= chunk.subrange(8, 16));
    assert(data.subrange(16, 24) =~= chunk.subrange(16, 24));
    assert(data.subrange(24, 32) =~= chunk.subrange(24, 32));
    assert(data.subrange(32, 40) =~= chunk.subrange(32, 40));
    assert(data.subrange(40, 48) =~= chunk.subrange(40, 48));
    assert(chunk.subrange(0, 4) =~= spec_u32_to_le_bytes(m.version));
    assert(chunk.subrange(4, 8) =~= spec_u32_to_le_bytes(m.page_size));
    assert(chunk.subrange(8, 16) =~= spec_u64_to_le_bytes(m.root));
    assert(chunk.subrange(16, 24) =~= spec_u64_to_le_bytes(m.freelist));
    assert(chunk.subrange(24, 32) =~= spec_u64_to_le_bytes(m.pgid));
    assert(chunk.subrange(32, 40) =~= spec_u64_to_le_bytes(m.txid));
    assert(chunk.subrange(40, 48) =~= spec_u64_to_le_bytes(m.checksum));
}

} // verus!
