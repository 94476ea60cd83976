//! A sorted multiset of page identifiers, as the freelist tracks
//! reclaimable pages, with its deterministic merge.

use vstd::prelude::*;
use vstd::multiset::Multiset;
use vstd::relations::{sorted_by, total_ordering};
use vstd::seq_lib::{
    lemma_multiset_commutative, lemma_sorted_unique, to_multiset_build, to_multiset_insert,
    to_multiset_len,
};
use vstd::string::StringExecFns;
use crate::page::Pgid;
use crate::text::{push_dec_u64, spec_dec};

verus! {

/// True when `s` ascends: each element is at most every later one.
/// Duplicates are allowed.
pub open spec fn is_sorted(s: Seq<Pgid>) -> bool {
    forall|i: int, j: int| #![trigger s[i], s[j]] 0 <= i < j < s.len() ==> s[i] <= s[j]
}

/// An ordered collection of page identifiers. The merge below keeps every
/// duplicate: it is multiset union, not set union, and whether duplicates
/// should be collapsed afterwards is the caller's decision.
#[derive(Debug, Default, Clone, PartialEq, Eq, PartialOrd, Ord)]
pub struct Pgids(pub Vec<Pgid>);

impl View for Pgids {
    type V = Seq<Pgid>;

    open spec fn view(&self) -> Seq<Pgid> {
        self.0@
    }
}

/// Inserts `x` into the sorted vector `v`, keeping it sorted.
fn insert_sorted(v: &mut Vec<Pgid>, x: Pgid)
    requires
        is_sorted(old(v)@),
    ensures
        is_sorted(final(v)@),
        final(v)@.to_multiset() == old(v)@.to_multiset().insert(x),
        final(v)@.len() == old(v)@.len() + 1,
{
    let ghost v0 = v@;
    let mut j: usize = 0;
    while j < v.len() && v[j] < x
        invariant
            j <= v@.len(),
            v@ == v0,
            is_sorted(v0),
            forall|k: int| 0 <= k < j ==> v0[k] < x,
        decreases v@.len() - j,
    {
        j += 1;
    }
    proof {
        to_multiset_insert(v0, j as int, x);
        v0.insert_ensures(j as int, x);
    }
    v.insert(j, x);
    proof {
        let t = v@;
        assert forall|a: int, b: int| 0 <= a < b < t.len() implies t[a] <= t[b] by {
            if a < j {
                assert(t[a] == v0[a]);
            } else if a == j {
                assert(t[a] == x);
            } else {
                assert(t[a] == v0[a - 1]);
            }
            if b < j {
                assert(t[b] == v0[b]);
            } else if b == j {
                assert(t[b] == x);
            } else {
                assert(t[b] == v0[b - 1]);
            }
        };
    }
}

/// Inserts every element of `src` into the sorted vector `out`, keeping it
/// sorted; the contents grow by exactly the multiset of `src`.
fn push_all_sorted(out: &mut Vec<Pgid>, src: &Vec<Pgid>)
    requires
        is_sorted(old(out)@),
    ensures
        is_sorted(final(out)@),
        final(out)@.to_multiset() == old(out)@.to_multiset().add(src@.to_multiset()),
        final(out)@.len() == old(out)@.len() + src@.len(),
{
    let ghost out0 = out@;
    proof {
        broadcast use vstd::multiset::group_multiset_axioms;

        lemma_empty_to_multiset();
        assert(src@.take(0) =~= Seq::<Pgid>::empty());
        assert(out0.to_multiset().add(src@.take(0).to_multiset()) =~= out0.to_multiset());
    }
    let mut i: usize = 0;
    while i < src.len()
        invariant
            i <= src@.len(),
            is_sorted(out@),
            out@.to_multiset() == out0.to_multiset().add(src@.take(i as int).to_multiset()),
            out@.len() == out0.len() + i,
        decreases src@.len() - i,
    {
        insert_sorted(out, src[i]);
        proof {
            broadcast use vstd::multiset::group_multiset_axioms;

            to_multiset_build(src@.take(i as int), src@[i as int]);
            assert(src@.take(i as int + 1) =~= src@.take(i as int).push(src@[i as int]));
            assert(out@.to_multiset() =~= out0.to_multiset().add(
                src@.take(i as int + 1).to_multiset(),
            ));
        }
        i += 1;
    }
    proof {
        assert(src@.take(src@.len() as int) =~= src@);
    }
}

/// The empty sequence holds the empty multiset.
proof fn lemma_empty_to_multiset()
    ensures
        Seq::<Pgid>::empty().to_multiset() == Multiset::<Pgid>::empty(),
{
    broadcast use vstd::multiset::group_multiset_axioms;
    broadcast use vstd::seq_lib::group_to_multiset_ensures;

    assert(Seq::<Pgid>::empty().to_multiset() =~= Multiset::<Pgid>::empty());
}

impl Pgids {
    /// Merges two collections of page identifiers into a new ascending
    /// one. The result carries exactly the identifiers of both inputs,
    /// duplicates included: it equals the ascending sort of the
    /// concatenation, whatever order the inputs were in.
    pub fn merge(&self, other: &Pgids) -> (r: Pgids)
        ensures
            is_sorted(r@),
            r@.to_multiset() == self@.to_multiset().add(other@.to_multiset()),
            r@.len() == self@.len() + other@.len(),
    {
        let mut out: Vec<Pgid> = Vec::new();
        push_all_sorted(&mut out, &self.0);
        push_all_sorted(&mut out, &other.0);
        proof {
            broadcast use vstd::multiset::group_multiset_axioms;

            lemma_empty_to_multiset();
            assert(out@.to_multiset() =~= self@.to_multiset().add(other@.to_multiset()));
        }
        Pgids(out)
    }

    /// Number of identifiers held.
    pub fn len(&self) -> (r: usize)
        ensures
            r == self@.len(),
    {
        self.0.len()
    }

    /// Sorts the identifiers ascending, in place, keeping every duplicate.
    pub fn sort(&mut self)
        ensures
            is_sorted(final(self)@),
            final(self)@.to_multiset() == old(self)@.to_multiset(),
            final(self)@.len() == old(self)@.len(),
    {
        let mut out: Vec<Pgid> = Vec::new();
        push_all_sorted(&mut out, &self.0);
        proof {
            broadcast use vstd::multiset::group_multiset_axioms;

            lemma_empty_to_multiset();
            assert(out@.to_multiset() =~= self@.to_multiset());
        }
        self.0 = out;
    }
}

/// An ascending sequence that carries the combined multiset of `a` and `b`
/// is exactly the ascending sort of their concatenation, every duplicate
/// preserved, and its length is the sum of the two lengths. With the
/// contract of `merge`, this pins `merge(a, b)` to sort(a + b).
pub proof fn lemma_merge_is_sort_of_concat(a: Seq<Pgid>, b: Seq<Pgid>, r: Seq<Pgid>)
    requires
        is_sorted(r),
        r.to_multiset() == a.to_multiset().add(b.to_multiset()),
    ensures
        r == (a + b).sort_by(|x: Pgid, y: Pgid| x <= y),
        r.len() == a.len() + b.len(),
{
    broadcast use vstd::multiset::group_multiset_axioms;

    let leq = |x: Pgid, y: Pgid| x <= y;
    assert(total_ordering(leq)) by {
        assert forall|x: Pgid| #[trigger] leq(x, x) by {}
        assert forall|x: Pgid, y: Pgid| #[trigger] leq(x, y) && #[trigger] leq(y, x) implies x
            == y by {}
        assert forall|x: Pgid, y: Pgid, z: Pgid|
            #[trigger] leq(x, y) && #[trigger] leq(y, z) implies leq(x, z) by {}
        assert forall|x: Pgid, y: Pgid| #[trigger] leq(x, y) || #[trigger] leq(y, x) by {}
    }
    (a + b).lemma_sort_by_ensures(leq);
    lemma_multiset_commutative(a, b);
    let srt = (a + b).sort_by(leq);
    assert forall|i: int, j: int| 0 <= i < j < r.len() implies #[trigger] leq(r[i], r[j]) by {
        assert(r[i] <= r[j]);
    }
    assert(sorted_by(r, leq));
    assert(r.to_multiset() == srt.to_multiset());
    lemma_sorted_unique(r, srt, leq);
    to_multiset_len(r);
    to_multiset_len(a);
    to_multiset_len(b);
}

/// The rendering of an identifier list: each identifier in decimal,
/// separated by ", ".
pub open spec fn spec_pgid_list(s: Seq<Pgid>) -> Seq<char>
    decreases s.len(),
{
    if s.len() == 0 {
        Seq::empty()
    } else if s.len() == 1 {
        spec_dec(s[0] as int)
    } else {
        spec_pgid_list(s.drop_last()) + ", "@ + spec_dec(s.last() as int)
    }
}

/// The display form of a collection: "Pgids([..])" around the rendered
/// identifier list.
pub open spec fn spec_pgids_text(s: Seq<Pgid>) -> Seq<char> {
    "Pgids(["@ + spec_pgid_list(s) + "])"@
}

impl Pgids {
    /// The display form "Pgids([..])" as a string.
    pub fn display(&self) -> (r: String)
        ensures
            r@ == spec_pgids_text(self@),
    {
        let mut s = "Pgids([".to_owned();
        let mut i: usize = 0;
        while i < self.0.len()
            invariant
                i <= self.0@.len(),
                s@ == "Pgids(["@ + spec_pgid_list(self.0@.take(i as int)),
            decreases self.0@.len() - i,
        {
            if i > 0 {
                s.append(", ");
            }
            push_dec_u64(&mut s, self.0[i]);
            proof {
                assert(self.0@.take(i as int + 1).drop_last() =~= self.0@.take(i as int));
                assert(s@ =~= "Pgids(["@ + spec_pgid_list(self.0@.take(i as int + 1)));
            }
            i += 1;
        }
        s.append("])");
        proof {
            assert(self.0@.take(self.0@.len() as int) =~= self.0@);
            assert(s@ =~= spec_pgids_text(self@));
        }
        s
    }
}

} // verus!
