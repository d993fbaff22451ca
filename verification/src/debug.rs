//! A plain view of a back-reference dictionary: index and rendered
//! subtree, ordered by index, for comparing compression strategies.
use vstd::prelude::*;

use crate::ast::Subst;
use vstd::multiset::Multiset;

verus! {

broadcast use vstd::std_specs::vec::group_vec_axioms, vstd::seq::group_seq_axioms;

/// A dictionary flattened to (index, rendering) pairs, ordered by index.
pub struct DebugDictionary {
    pub data: Vec<(Subst, String)>,
}

/// Whether two dictionaries hold the same entry at an index: the same
/// back-reference index and the same rendered text.
pub open spec fn entries_agree_at(
    a: Seq<(Subst, String)>,
    b: Seq<(Subst, String)>,
    j: int,
) -> bool {
    a[j].0 == b[j].0 && a[j].1@ == b[j].1@
}

/// Whether the entries are ordered by index.
pub open spec fn entries_sorted(d: Seq<(Subst, String)>) -> bool {
    forall|i: int, j: int| 0 <= i < j < d.len() ==> (#[trigger] d[i]).0.0 <= (#[trigger] d[j]).0.0
}

impl DebugDictionary {
    /// Orders the given entries by index: the result is a permutation of
    /// the given entries (the same multiset) with non-decreasing indices.
    pub fn new(entries: Vec<(Subst, String)>) -> (r: DebugDictionary)
        ensures
            r.data@.len() == entries@.len(),
            entries_sorted(r.data@),
            r.data@.to_multiset() == entries@.to_multiset(),
    {
        broadcast use vstd::seq_lib::group_to_multiset_ensures;

        let mut entries = entries;
        let mut data: Vec<(Subst, String)> = Vec::new();
        let ghost orig = entries@;
        proof {
            assert(data@.to_multiset() =~= Multiset::<(Subst, String)>::empty());
            assert(data@.to_multiset().add(entries@.to_multiset()) =~= orig.to_multiset());
        }
        while entries.len() > 0
            invariant
                data@.len() + entries@.len() == orig.len(),
                entries_sorted(data@),
                data@.to_multiset().add(entries@.to_multiset()) == orig.to_multiset(),
                forall|i: int, k: int|
                    0 <= i < data@.len() && 0 <= k < entries@.len() ==> (#[trigger] data@[i]).0.0
                        <= (#[trigger] entries@[k]).0.0,
            decreases entries@.len(),
    {
            let mut min: usize = 0;
            let mut k: usize = 1;
            while k < entries.len()
                invariant
                    0 <= min < k <= entries@.len(),
                    forall|i: int| 0 <= i < k ==> entries@[min as int].0.0 <= (#[trigger] entries@[i]).0.0,
                decreases entries@.len() - k,
            {
                if entries[k].0.0 < entries[min].0.0 {
                    min = k;
                }
                k += 1;
            }
            let ghost before = entries@;
            let ghost data_before = data@;
            let e = entries.remove(min);
            data.push(e);
            proof {
                broadcast use vstd::seq_lib::group_to_multiset_ensures;

                assert(e == before[min as int]);
                assert(before.contains(e));
                assert(before.to_multiset().count(e) > 0);
                assert(entries@.to_multiset() =~= before.to_multiset().remove(e));
                assert(data@.to_multiset() =~= data_before.to_multiset().insert(e));
                assert(data@.to_multiset().add(entries@.to_multiset())
                    =~= data_before.to_multiset().add(before.to_multiset()));
                assert forall|i: int, kk: int|
                    0 <= i < data@.len() && 0 <= kk < entries@.len() implies (#[trigger] data@[i]).0.0
                        <= (#[trigger] entries@[kk]).0.0 by {
                    if kk < min {
                        assert(entries@[kk] == before[kk]);
                    } else {
                        assert(entries@[kk] == before[kk + 1]);
                    }
                }
            }
        }
        proof {
            assert(entries@.to_multiset() =~= Multiset::<(Subst, String)>::empty());
            assert(data@.to_multiset() =~= orig.to_multiset());
        }
        DebugDictionary { data }
    }

    /// The first index below both lengths where this dictionary and the
    /// other hold different entries, or `None` where they agree on every
    /// shared index.
    pub fn first_difference(&self, other: &DebugDictionary) -> (r: Option<usize>)
        ensures
            match r {
                Some(i) => ({
                    &&& i < self.data@.len() && i < other.data@.len()
                    &&& !entries_agree_at(self.data@, other.data@, i as int)
                    &&& forall|j: int|
                        0 <= j < i ==> #[trigger] entries_agree_at(self.data@, other.data@, j)
                }),
                None => forall|j: int|
                    0 <= j < self.data@.len() && j < other.data@.len()
                        ==> #[trigger] entries_agree_at(self.data@, other.data@, j),
            },
    {
        let n = if self.data.len() < other.data.len() {
            self.data.len()
        } else {
            other.data.len()
        };
        let mut i: usize = 0;
        while i < n
            invariant
                0 <= i <= n,
                n <= self.data@.len() && n <= other.data@.len(),
                n == self.data@.len() || n == other.data@.len(),
                forall|j: int|
                    0 <= j < i ==> #[trigger] entries_agree_at(self.data@, other.data@, j),
            decreases n - i,
        {
            let same = self.data[i].0 == other.data[i].0 && self.data[i].1.eq(&other.data[i].1);
            if !same {
                proof {
                    assert(!entries_agree_at(self.data@, other.data@, i as int));
                }
                return Some(i);
            }
            proof {
                assert(entries_agree_at(self.data@, other.data@, i as int));
            }
            i += 1;
        }
        None
    }

    /// How many entries the dictionary holds.
    pub fn len(&self) -> (r: usize)
        ensures
            r == self.data@.len(),
    {
        self.data.len()
    }
}

} // verus!
