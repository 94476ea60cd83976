//! The page header, type discrimination, and bounds-checked element and
//! meta views over a page's raw payload.

pub mod branch_page;
pub mod leaf_page;
pub mod pgids;

use vstd::prelude::*;
use vstd::bytes::{u32_from_le_bytes, u64_from_le_bytes};
use vstd::slice::slice_subrange;
use vstd::string::StringExecFns;
use crate::db::{spec_meta, Meta, META_SIZE};
use crate::page::branch_page::{spec_branch_element_at, BranchPageElement, BRANCH_PAGE_ELEMENT_SIZE};
use crate::page::leaf_page::{spec_leaf_element_at, LeafPageElement, LEAF_PAGE_ELEMENT_SIZE};
use crate::text::{spec_hex_byte, spec_hex_u16, push_hex_byte, push_hex_u16};

verus! {

/// Size in bytes of the fixed page header on disk: an eight-byte page id,
/// a two-byte flag discriminant, a two-byte element count and a four-byte
/// overflow count, followed immediately by the payload.
pub const PAGE_HEADER_SIZE: usize = 16;

/// The fewest keys a branch page may carry in a well-formed tree.
pub const MIN_KEYS_PER_PAGE: usize = 2;

/// Flag discriminant of a branch page.
pub const BRANCH_PAGE_FLAG: u16 = 0x01;

/// Flag discriminant of a leaf page.
pub const LEAF_PAGE_FLAG: u16 = 0x02;

/// Flag discriminant of a meta page.
pub const META_PAGE_FLAG: u16 = 0x04;

/// Flag discriminant of a freelist page.
pub const FREELIST_PAGE_FLAG: u16 = 0x10;

/// Bit in a leaf element's flags marking the entry as a nested-bucket
/// header (a namespace distinct from the page flags above).
pub const BUCKET_LEAF_FLAG: u32 = 0x01;

/// Page identifier: the page's address within the file, as a page number.
pub type Pgid = u64;

/// Human-readable description of one page, produced for tooling; never
/// persisted.
#[derive(Debug, Clone, PartialEq, Eq)]
pub struct PageInfo {
    pub id: usize,
    pub page_type: String,
    pub count: usize,
    pub overflow_count: usize,
}

/// A page of the on-disk file: the decoded header fields and the raw
/// payload that follows them. The payload is only ever read here, never
/// trusted: its length is caller-supplied and may be shorter than what
/// `count` implies, so every view over it is bounds-checked.
#[derive(Debug, Clone)]
pub struct Page {
    /// Page identifier.
    pub id: Pgid,
    /// Discriminant selecting the page variant.
    pub flags: u16,
    /// Number of elements for branch and leaf pages; variant-defined for
    /// meta and freelist pages.
    pub count: u16,
    /// Number of additional contiguous pages this logical page spans.
    pub overflow: u32,
    /// The raw payload following the header.
    pub data: Vec<u8>,
}

/// The type name a page with the given flags reports: one of "branch",
/// "leaf", "meta" and "freelist", or "unknown<..>" carrying the raw value
/// in lowercase hexadecimal.
pub open spec fn spec_typ(flags: u16) -> Seq<char> {
    if flags == BRANCH_PAGE_FLAG {
        "branch"@
    } else if flags == LEAF_PAGE_FLAG {
        "leaf"@
    } else if flags == META_PAGE_FLAG {
        "meta"@
    } else if flags == FREELIST_PAGE_FLAG {
        "freelist"@
    } else {
        "unknown<"@ + spec_hex_u16(flags) + ">"@
    }
}

/// The hexadecimal dump of a byte sequence: two lowercase digits per byte,
/// concatenated in order.
pub open spec fn spec_hexdump(data: Seq<u8>) -> Seq<char>
    decreases data.len(),
{
    if data.len() == 0 {
        Seq::empty()
    } else {
        spec_hexdump(data.drop_last()) + spec_hex_byte(data.last())
    }
}

impl Page {
    /// The page's type name, decided by its flags. Total: unrecognized
    /// flag values are reported as "unknown<..>", never guessed at.
    pub fn typ(&self) -> (r: String)
        ensures
            r@ == spec_typ(self.flags),
    {
        if self.flags == BRANCH_PAGE_FLAG {
            "branch".to_owned()
        } else if self.flags == LEAF_PAGE_FLAG {
            "leaf".to_owned()
        } else if self.flags == META_PAGE_FLAG {
            "meta".to_owned()
        } else if self.flags == FREELIST_PAGE_FLAG {
            "freelist".to_owned()
        } else {
            let mut s = "unknown<".to_owned();
            push_hex_u16(&mut s, self.flags);
            s.append(">");
            proof {
                assert(s@ =~= spec_typ(self.flags));
            }
            s
        }
    }

    /// The meta record at the start of the payload, or nothing when the
    /// payload is shorter than the record. Does not check that the flags
    /// select a meta page; callers gate on the type.
    pub fn meta(&self) -> (r: Option<Meta>)
        ensures
            match r {
                Some(m) => self.data@.len() >= META_SIZE && m == spec_meta(self.data@),
                None => self.data@.len() < META_SIZE,
            },
    {
        if self.data.len() >= META_SIZE {
            let d = self.data.as_slice();
            Some(
                Meta {
                    version: u32_from_le_bytes(slice_subrange(d, 0, 4)),
                    page_size: u32_from_le_bytes(slice_subrange(d, 4, 8)),
                    root: u64_from_le_bytes(slice_subrange(d, 8, 16)),
                    freelist: u64_from_le_bytes(slice_subrange(d, 16, 24)),
                    pgid: u64_from_le_bytes(slice_subrange(d, 24, 32)),
                    txid: u64_from_le_bytes(slice_subrange(d, 32, 40)),
                    checksum: u64_from_le_bytes(slice_subrange(d, 40, 48)),
                },
            )
        } else {
            None
        }
    }

    /// The leaf element header at `index`, or nothing when the sixteen
    /// bytes it would occupy do not lie inside the payload. Never panics,
    /// whatever the index or the stored count.
    pub fn leaf_page_element(&self, index: usize) -> (r: Option<LeafPageElement>)
        ensures
            match r {
                Some(e) => 16 * index + 16 <= self.data@.len() && e == spec_leaf_element_at(
                    self.data@,
                    index as int,
                ),
                None => 16 * index + 16 > self.data@.len(),
            },
    {
        let n = self.data.len();
        match index.checked_mul(LEAF_PAGE_ELEMENT_SIZE) {
            Some(off) => {
                if n >= 16 && off <= n - 16 {
                    let d = self.data.as_slice();
                    Some(
                        LeafPageElement {
                            flags: u32_from_le_bytes(slice_subrange(d, off, off + 4)),
                            pos: u32_from_le_bytes(slice_subrange(d, off + 4, off + 8)),
                            ksize: u32_from_le_bytes(slice_subrange(d, off + 8, off + 12)),
                            vsize: u32_from_le_bytes(slice_subrange(d, off + 12, off + 16)),
                        },
                    )
                } else {
                    None
                }
            },
            None => None,
        }
    }

    /// The branch element header at `index`, or nothing when the sixteen
    /// bytes it would occupy do not lie inside the payload. Never panics,
    /// whatever the index or the stored count.
    pub fn branch_page_element(&self, index: usize) -> (r: Option<BranchPageElement>)
        ensures
            match r {
                Some(e) => 16 * index + 16 <= self.data@.len() && e == spec_branch_element_at(
                    self.data@,
                    index as int,
                ),
                None => 16 * index + 16 > self.data@.len(),
            },
    {
        let n = self.data.len();
        match index.checked_mul(BRANCH_PAGE_ELEMENT_SIZE) {
            Some(off) => {
                if n >= 16 && off <= n - 16 {
                    let d = self.data.as_slice();
                    Some(
                        BranchPageElement {
                            pos: u32_from_le_bytes(slice_subrange(d, off, off + 4)),
                            ksize: u32_from_le_bytes(slice_subrange(d, off + 4, off + 8)),
                            pgid: u64_from_le_bytes(slice_subrange(d, off + 8, off + 16)),
                        },
                    )
                } else {
                    None
                }
            },
            None => None,
        }
    }

    /// All leaf element headers the payload can actually hold: `count`
    /// elements, clamped so that no decode reads past the buffer end.
    pub fn leaf_page_elements(&self) -> (r: Vec<LeafPageElement>)
        ensures
            r@.len() == if 16 * self.count <= self.data@.len() {
                self.count as int
            } else {
                self.data@.len() as int / 16
            },
            forall|i: int| 0 <= i < r@.len() ==> r@[i] == spec_leaf_element_at(self.data@, i),
            16 * r@.len() <= self.data@.len(),
    {
        let avail = self.data.len() / LEAF_PAGE_ELEMENT_SIZE;
        let n = if self.count as usize <= avail {
            self.count as usize
        } else {
            avail
        };
        proof {
            assert(16 * (self.data@.len() as int / 16) <= self.data@.len()) by (nonlinear_arith);
        }
        let mut out: Vec<LeafPageElement> = Vec::new();
        let mut i: usize = 0;
        while i < n
            invariant
                i <= n,
                16 * n <= self.data@.len(),
                n == if 16 * self.count <= self.data@.len() {
                    self.count as int
                } else {
                    self.data@.len() as int / 16
                },
                out@.len() == i,
                forall|j: int| 0 <= j < i ==> out@[j] == spec_leaf_element_at(self.data@, j),
            decreases n - i,
        {
            match self.leaf_page_element(i) {
                Some(e) => out.push(e),
                None => {
                    proof {
                        assert(false);
                    }
                },
            }
            i += 1;
        }
        out
    }

    /// All branch element headers the payload can actually hold: `count`
    /// elements, clamped so that no decode reads past the buffer end.
    pub fn branch_page_elements(&self) -> (r: Vec<BranchPageElement>)
        ensures
            r@.len() == if 16 * self.count <= self.data@.len() {
                self.count as int
            } else {
                self.data@.len() as int / 16
            },
            forall|i: int| 0 <= i < r@.len() ==> r@[i] == spec_branch_element_at(self.data@, i),
            16 * r@.len() <= self.data@.len(),
    {
        let avail = self.data.len() / BRANCH_PAGE_ELEMENT_SIZE;
        let n = if self.count as usize <= avail {
            self.count as usize
        } else {
            avail
        };
        proof {
            assert(16 * (self.data@.len() as int / 16) <= self.data@.len()) by (nonlinear_arith);
        }
        let mut out: Vec<BranchPageElement> = Vec::new();
        let mut i: usize = 0;
        while i < n
            invariant
                i <= n,
                16 * n <= self.data@.len(),
                n == if 16 * self.count <= self.data@.len() {
                    self.count as int
                } else {
                    self.data@.len() as int / 16
                },
                out@.len() == i,
                forall|j: int| 0 <= j < i ==> out@[j] == spec_branch_element_at(self.data@, j),
            decreases n - i,
        {
            match self.branch_page_element(i) {
                Some(e) => out.push(e),
                None => {
                    proof {
                        assert(false);
                    }
                },
            }
            i += 1;
        }
        out
    }

    /// A hexadecimal dump of the first `n` payload bytes, clamped to the
    /// payload length. Total: no `n` makes it read past the buffer.
    pub fn hexdump(&self, n: usize) -> (r: String)
        ensures
            n <= self.data@.len() ==> r@ == spec_hexdump(self.data@.take(n as int)),
            n > self.data@.len() ==> r@ == spec_hexdump(self.data@),
    {
        let m = if n <= self.data.len() {
            n
        } else {
            self.data.len()
        };
        let mut s = String::new();
        let mut i: usize = 0;
        while i < m
            invariant
                i <= m,
                m <= self.data@.len(),
                s@ == spec_hexdump(self.data@.take(i as int)),
            decreases m - i,
        {
            let b = self.data[i];
            push_hex_byte(&mut s, b);
            proof {
                assert(self.data@.take(i + 1).drop_last() =~= self.data@.take(i as int));
                assert(self.data@.take(i + 1).last() == self.data@[i as int]);
            }
            i += 1;
        }
        proof {
            if n > self.data@.len() {
                assert(self.data@.take(self.data@.len() as int) =~= self.data@);
            }
        }
        s
    }
}

} // verus!
