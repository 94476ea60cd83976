use quickcheck::{quickcheck, Arbitrary, Gen};
use rbolt::db::Meta;
use rbolt::page::branch_page::BranchPageElement;
use rbolt::page::leaf_page::LeafPageElement;
use rbolt::page::pgids::Pgids;
use rbolt::page::{
    Page, BRANCH_PAGE_FLAG, FREELIST_PAGE_FLAG, LEAF_PAGE_FLAG, META_PAGE_FLAG,
};

fn page_with_flags(id: u64, flags: u16, data: Vec<u8>) -> Page {
    Page {
        id,
        flags,
        count: 0,
        overflow: 0,
        data,
    }
}

#[test]
fn test_page_typ() {
    let page_branch = page_with_flags(1, BRANCH_PAGE_FLAG, vec![]);
    assert_eq!(page_branch.typ(), "branch");

    let page_leaf = page_with_flags(2, LEAF_PAGE_FLAG, vec![]);
    assert_eq!(page_leaf.typ(), "leaf");

    let page_meta = page_with_flags(3, META_PAGE_FLAG, vec![]);
    assert_eq!(page_meta.typ(), "meta");

    let page_freelist = page_with_flags(4, FREELIST_PAGE_FLAG, vec![]);
    assert_eq!(page_freelist.typ(), "freelist");

    let page_unknown = page_with_flags(5, 0x4E20, vec![]);
    assert_eq!(page_unknown.typ(), "unknown<4e20>");
}

#[test]
fn test_page_hexdump() {
    let page = page_with_flags(256, 0, vec![0u8; 16]);
    let dump = page.hexdump(16);
    assert_eq!(dump, "00".repeat(16));
}

#[test]
fn test_pgids_merge() {
    let a = Pgids(vec![4, 5, 6, 10, 11, 12, 13, 27]);
    let b = Pgids(vec![1, 3, 8, 9, 25, 30]);
    let c = a.merge(&b);
    assert_eq!(
        c,
        Pgids(vec![1, 3, 4, 5, 6, 8, 9, 10, 11, 12, 13, 25, 27, 30])
    );

    let a = Pgids(vec![4, 5, 6, 10, 11, 12, 13, 27, 35, 36]);
    let b = Pgids(vec![8, 9, 25, 30]);
    let c = a.merge(&b);
    assert_eq!(
        c,
        Pgids(vec![4, 5, 6, 8, 9, 10, 11, 12, 13, 25, 27, 30, 35, 36])
    );
}

#[derive(Clone, Debug)]
struct ArbPgids(Vec<u64>);

impl Arbitrary for ArbPgids {
    fn arbitrary(g: &mut Gen) -> Self {
        ArbPgids(Vec::<u64>::arbitrary(g))
    }

    fn shrink(&self) -> Box<dyn Iterator<Item = Self>> {
        Box::new(self.0.shrink().map(ArbPgids))
    }
}

fn merge_matches_sorted_concat(a: ArbPgids, b: ArbPgids) -> bool {
    let mut a_sorted = Pgids(a.0.clone());
    a_sorted.sort();
    let mut b_sorted = Pgids(b.0.clone());
    b_sorted.sort();

    let got = a_sorted.merge(&b_sorted);

    let mut exp = a_sorted.0.clone();
    exp.extend(&b_sorted.0);
    exp.sort();
    let exp_pgids = Pgids(exp);

    exp_pgids == got
}

#[test]
fn test_pgids_merge_quick() {
    quickcheck(merge_matches_sorted_concat as fn(ArbPgids, ArbPgids) -> bool);
}

#[test]
fn test_pgids_display() {
    let pgids = Pgids(vec![1, 2, 3]);
    assert_eq!(pgids.display(), "Pgids([1, 2, 3])");
}

#[test]
fn test_page_typ_unknown_widths() {
    assert_eq!(page_with_flags(1, 0x0000, vec![]).typ(), "unknown<00>");
    assert_eq!(page_with_flags(2, 0x0003, vec![]).typ(), "unknown<03>");
    assert_eq!(page_with_flags(3, 0x00FF, vec![]).typ(), "unknown<ff>");
    assert_eq!(page_with_flags(4, 0x0100, vec![]).typ(), "unknown<100>");
    assert_eq!(page_with_flags(5, 0xFFFF, vec![]).typ(), "unknown<ffff>");
}

#[test]
fn test_page_hexdump_clamps() {
    let page = page_with_flags(7, 0, vec![0x00, 0x1F, 0xA0]);
    assert_eq!(page.hexdump(0), "");
    assert_eq!(page.hexdump(2), "001f");
    assert_eq!(page.hexdump(3), "001fa0");
    assert_eq!(page.hexdump(usize::MAX), "001fa0");
}

fn leaf_header_bytes(e: &LeafPageElement) -> Vec<u8> {
    let mut out = Vec::new();
    out.extend_from_slice(&e.flags.to_le_bytes());
    out.extend_from_slice(&e.pos.to_le_bytes());
    out.extend_from_slice(&e.ksize.to_le_bytes());
    out.extend_from_slice(&e.vsize.to_le_bytes());
    out
}

fn branch_header_bytes(e: &BranchPageElement) -> Vec<u8> {
    let mut out = Vec::new();
    out.extend_from_slice(&e.pos.to_le_bytes());
    out.extend_from_slice(&e.ksize.to_le_bytes());
    out.extend_from_slice(&e.pgid.to_le_bytes());
    out
}

#[test]
fn test_leaf_element_round_trip() {
    let elem = LeafPageElement {
        flags: 0,
        pos: 16,
        ksize: 3,
        vsize: 4,
    };
    let mut data = leaf_header_bytes(&elem);
    data.extend_from_slice(b"keywxyz");

    let page = Page {
        id: 9,
        flags: LEAF_PAGE_FLAG,
        count: 1,
        overflow: 0,
        data,
    };
    let decoded = page.leaf_page_element(0).unwrap();
    assert_eq!(decoded, elem);
    assert_eq!(decoded.key(&page.data), Some(&b"key"[..]));
    assert_eq!(decoded.value(&page.data), Some(&b"wxyz"[..]));
}

#[test]
fn test_branch_element_round_trip() {
    let elem = BranchPageElement {
        pos: 16,
        ksize: 5,
        pgid: 0x1122334455667788,
    };
    let mut data = branch_header_bytes(&elem);
    data.extend_from_slice(b"route");

    let page = Page {
        id: 10,
        flags: BRANCH_PAGE_FLAG,
        count: 1,
        overflow: 0,
        data,
    };
    let decoded = page.branch_page_element(0).unwrap();
    assert_eq!(decoded, elem);
    assert_eq!(decoded.key(&page.data), Some(&b"route"[..]));
}

#[test]
fn test_element_accessors_reject_overflowing_offsets() {
    let data = vec![0u8; 32];
    let leaf = LeafPageElement {
        flags: 0,
        pos: u32::MAX,
        ksize: u32::MAX,
        vsize: u32::MAX,
    };
    assert_eq!(leaf.key(&data), None);
    assert_eq!(leaf.value(&data), None);

    let branch = BranchPageElement {
        pos: u32::MAX,
        ksize: u32::MAX,
        pgid: 0,
    };
    assert_eq!(branch.key(&data), None);

    let truncated = LeafPageElement {
        flags: 0,
        pos: 16,
        ksize: 100,
        vsize: 0,
    };
    assert_eq!(truncated.key(&data), None);
}

#[test]
fn test_page_element_out_of_range_index() {
    let page = Page {
        id: 11,
        flags: LEAF_PAGE_FLAG,
        count: 1,
        overflow: 0,
        data: vec![0u8; 16],
    };
    assert!(page.leaf_page_element(0).is_some());
    assert_eq!(page.leaf_page_element(1), None);
    assert_eq!(page.leaf_page_element(usize::MAX), None);
    assert_eq!(page.branch_page_element(1), None);
    assert_eq!(page.branch_page_element(usize::MAX / 16), None);
}

#[test]
fn test_page_elements_clamped_to_buffer() {
    // count claims five elements but the payload holds only two.
    let page = Page {
        id: 12,
        flags: LEAF_PAGE_FLAG,
        count: 5,
        overflow: 0,
        data: vec![0u8; 16 * 2 + 5],
    };
    let leaves = page.leaf_page_elements();
    assert_eq!(leaves.len(), 2);
    assert!(leaves.len() * 16 <= page.data.len());

    let branches = page.branch_page_elements();
    assert_eq!(branches.len(), 2);

    // count smaller than what the payload could hold wins.
    let small = Page {
        id: 13,
        flags: LEAF_PAGE_FLAG,
        count: 1,
        overflow: 0,
        data: vec![0u8; 64],
    };
    assert_eq!(small.leaf_page_elements().len(), 1);
    assert_eq!(small.branch_page_elements().len(), 1);
}

#[test]
fn test_page_meta_round_trip() {
    let meta = Meta {
        version: 2,
        page_size: 4096,
        root: 3,
        freelist: 4,
        pgid: 7,
        txid: 42,
        checksum: 0xDEADBEEF,
    };
    let mut data = Vec::new();
    data.extend_from_slice(&meta.version.to_le_bytes());
    data.extend_from_slice(&meta.page_size.to_le_bytes());
    data.extend_from_slice(&meta.root.to_le_bytes());
    data.extend_from_slice(&meta.freelist.to_le_bytes());
    data.extend_from_slice(&meta.pgid.to_le_bytes());
    data.extend_from_slice(&meta.txid.to_le_bytes());
    data.extend_from_slice(&meta.checksum.to_le_bytes());

    let page = Page {
        id: 0,
        flags: META_PAGE_FLAG,
        count: 0,
        overflow: 0,
        data,
    };
    assert_eq!(page.meta(), Some(meta));

    let short = page_with_flags(1, META_PAGE_FLAG, vec![0u8; 47]);
    assert_eq!(short.meta(), None);
}

#[test]
fn test_pgids_merge_keeps_duplicates() {
    let a = Pgids(vec![1, 2, 2, 9]);
    let b = Pgids(vec![2, 9]);
    let c = a.merge(&b);
    assert_eq!(c, Pgids(vec![1, 2, 2, 2, 9, 9]));
    assert_eq!(c.len(), a.len() + b.len());

    let empty = Pgids(vec![]);
    assert_eq!(a.merge(&empty), Pgids(vec![1, 2, 2, 9]));
    assert_eq!(empty.merge(&empty), Pgids(vec![]));
}

#[test]
fn test_pgids_sort() {
    let mut p = Pgids(vec![9, 1, 7, 1, 0]);
    p.sort();
    assert_eq!(p, Pgids(vec![0, 1, 1, 7, 9]));
    assert_eq!(p.len(), 5);
}

#[test]
fn test_pgids_display_edges() {
    assert_eq!(Pgids(vec![]).display(), "Pgids([])");
    assert_eq!(Pgids(vec![0]).display(), "Pgids([0])");
    assert_eq!(
        Pgids(vec![10, 18446744073709551615]).display(),
        "Pgids([10, 18446744073709551615])"
    );
}
