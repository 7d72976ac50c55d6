//! Maps keyed by accelerator slot, kept in the order of the slots.
use vstd::prelude::*;
use crate::pci_slot::{PciSlot, lemma_rank_injective};

verus! {

/// The pairs are in strictly increasing order of their slots.
pub open spec fn sorted_pairs<V>(s: Seq<(PciSlot, V)>) -> bool {
    forall|i: int, j: int| 0 <= i < j < s.len() ==> s[i].0.rank() < s[j].0.rank()
}

/// Some pair of `s` has the slot `k`.
pub open spec fn has_slot<V>(s: Seq<(PciSlot, V)>, k: PciSlot) -> bool {
    exists|i: int| 0 <= i < s.len() && s[i].0 == k
}

/// The map that a list of pairs with distinct slots stands for.
pub open spec fn pairs_map<V>(s: Seq<(PciSlot, V)>) -> Map<PciSlot, V> {
    Map::new(
        |k: PciSlot| has_slot(s, k),
        |k: PciSlot| s[choose|i: int| 0 <= i < s.len() && s[i].0 == k].1,
    )
}

/// In a sorted list, the pair at `i` gives the value of its slot.
pub proof fn lemma_pairs_map_at<V>(s: Seq<(PciSlot, V)>, i: int)
    requires
        sorted_pairs(s),
        0 <= i < s.len(),
    ensures
        pairs_map(s).contains_key(s[i].0),
        pairs_map(s)[s[i].0] == s[i].1,
{
    assert(has_slot(s, s[i].0));
    let j = choose|j: int| 0 <= j < s.len() && s[j].0 == s[i].0;
    if j != i {
        assert(s[j].0.rank() != s[i].0.rank());
    }
}

/// Values keyed by accelerator slot, in increasing order of slot.
#[derive(Clone, Debug, PartialEq, Eq)]
pub struct SlotMap<V> {
    entries: Vec<(PciSlot, V)>,
}

impl<V> View for SlotMap<V> {
    type V = Map<PciSlot, V>;

    closed spec fn view(&self) -> Map<PciSlot, V> {
        pairs_map(self.entries@)
    }
}

impl<V: Copy> SlotMap<V> {
    /// The pairs of the map in increasing order of slot.
    pub closed spec fn pairs(&self) -> Seq<(PciSlot, V)> {
        self.entries@
    }

    pub closed spec fn wf(&self) -> bool {
        sorted_pairs(self.entries@)
    }

    pub fn new() -> (r: SlotMap<V>)
        ensures
            r.wf(),
            r@ == Map::<PciSlot, V>::empty(),
    {
        let r = SlotMap { entries: Vec::new() };
        assert(r@ =~= Map::<PciSlot, V>::empty());
        r
    }

    /// The pairs of the map, in increasing order of slot.
    pub fn as_pairs(&self) -> (r: &Vec<(PciSlot, V)>)
        requires
            self.wf(),
        ensures
            r@ == self.pairs(),
            sorted_pairs(r@),
            pairs_map(r@) == self@,
    {
        &self.entries
    }

    pub fn len(&self) -> (r: usize)
        requires
            self.wf(),
        ensures
            r == self@.len(),
    {
        proof {
            self.lemma_len();
        }
        self.entries.len()
    }

    proof fn lemma_len(&self)
        requires
            self.wf(),
        ensures
            self@.len() == self.entries@.len(),
    {
        let s = self.entries@;
        let keys = s.map_values(|p: (PciSlot, V)| p.0);
        assert(keys.no_duplicates()) by {
            assert forall|i: int, j: int| 0 <= i < keys.len() && 0 <= j < keys.len() && i != j
                implies keys[i] != keys[j] by {
                if i < j {
                    assert(s[i].0.rank() < s[j].0.rank());
                } else {
                    assert(s[j].0.rank() < s[i].0.rank());
                }
            }
        }
        assert forall|x: PciSlot| self@.dom().contains(x) == keys.to_set().contains(x) by {
            if has_slot(s, x) {
                let j = choose|j: int| 0 <= j < s.len() && s[j].0 == x;
                assert(keys[j] == x);
            }
            if keys.contains(x) {
                let j = choose|j: int| 0 <= j < keys.len() && keys[j] == x;
                assert(s[j].0 == x);
            }
        }
        assert(self@.dom() =~= keys.to_set());
        keys.unique_seq_to_set();
    }

    /// The value kept for `slot`, if any.
    pub fn get(&self, slot: PciSlot) -> (r: Option<V>)
        requires
            self.wf(),
        ensures
            r == (if self@.contains_key(slot) {
                Some(self@[slot])
            } else {
                None
            }),
    {
        let mut i: usize = 0;
        while i < self.entries.len()
            invariant
                sorted_pairs(self.entries@),
                forall|j: int| 0 <= j < i ==> self.entries@[j].0 != slot,
            decreases self.entries.len() - i,
        {
            if self.entries[i].0 == slot {
                proof {
                    lemma_pairs_map_at(self.entries@, i as int);
                }
                return Some(self.entries[i].1);
            }
            i = i + 1;
        }
        None
    }

    /// Keeps `v` for `slot`, in place of any value kept for it before.
    pub fn set(&mut self, slot: PciSlot, v: V)
        requires
            old(self).wf(),
        ensures
            final(self).wf(),
            final(self)@ == old(self)@.insert(slot, v),
    {
        let ghost s = self.entries@;
        let mut i: usize = 0;
        while i < self.entries.len() && self.entries[i].0.rank_of() < slot.rank_of()
            invariant
                self.entries@ == s,
                sorted_pairs(s),
                i <= s.len(),
                forall|j: int| 0 <= j < i ==> s[j].0.rank() < slot.rank(),
            decreases self.entries.len() - i,
        {
            i = i + 1;
        }
        if i < self.entries.len() && self.entries[i].0 == slot {
            self.entries.set(i, (slot, v));
            let ghost n = self.entries@;
            assert(n == s.update(i as int, (slot, v)));
            assert(sorted_pairs(n));
            assert forall|k: PciSlot| #[trigger] pairs_map(n).contains_key(k) == pairs_map(s).insert(
                slot,
                v,
            ).contains_key(k) by {
                if k != slot {
                    if has_slot(s, k) {
                        let j = choose|j: int| 0 <= j < s.len() && s[j].0 == k;
                        assert(n[j].0 == k);
                    }
                    if has_slot(n, k) {
                        let j = choose|j: int| 0 <= j < n.len() && n[j].0 == k;
                        assert(s[j].0 == k);
                    }
                } else {
                    assert(n[i as int].0 == k);
                }
            }
            assert forall|k: PciSlot| #[trigger] pairs_map(n).contains_key(k) implies pairs_map(
                n,
            )[k] == pairs_map(s).insert(slot, v)[k] by {
                let j = choose|j: int| 0 <= j < n.len() && n[j].0 == k;
                lemma_pairs_map_at(n, j);
                if k != slot {
                    lemma_pairs_map_at(s, j);
                }
            }
            assert(pairs_map(n) =~= pairs_map(s).insert(slot, v));
        } else {
            proof {
                if i < s.len() {
                    lemma_rank_injective(s[i as int].0, slot);
                }
            }
            self.entries.insert(i, (slot, v));
            let ghost n = self.entries@;
            assert(n == s.insert(i as int, (slot, v)));
            assert(sorted_pairs(n)) by {
                assert forall|a: int, b: int| 0 <= a < b < n.len() implies n[a].0.rank()
                    < n[b].0.rank() by {
                    if b < i {
                    } else if b == i {
                    } else if a < i {
                        assert(s[a].0.rank() < slot.rank());
                        assert(s[i as int].0.rank() <= s[b - 1].0.rank());
                    } else if a == i {
                        assert(s[i as int].0.rank() <= s[b - 1].0.rank());
                    } else {
                        assert(n[a] == s[a - 1]);
                    }
                }
            }
            assert forall|k: PciSlot| #[trigger] pairs_map(n).contains_key(k) == (pairs_map(
                s,
            ).insert(slot, v).contains_key(k)) by {
                if has_slot(s, k) {
                    let j = choose|j: int| 0 <= j < s.len() && s[j].0 == k;
                    if j < i {
                        assert(n[j].0 == k);
                    } else {
                        assert(n[j + 1].0 == k);
                    }
                }
                if has_slot(n, k) && k != slot {
                    let j = choose|j: int| 0 <= j < n.len() && n[j].0 == k;
                    if j < i {
                        assert(s[j].0 == k);
                    } else {
                        assert(s[j - 1].0 == k);
                    }
                }
                if k == slot {
                    assert(n[i as int].0 == k);
                }
            }
            assert forall|k: PciSlot| #[trigger] pairs_map(n).contains_key(k) implies pairs_map(
                n,
            )[k] == pairs_map(s).insert(slot, v)[k] by {
                let j = choose|j: int| 0 <= j < n.len() && n[j].0 == k;
                lemma_pairs_map_at(n, j);
                if j < i {
                    lemma_pairs_map_at(s, j);
                } else if j > i {
                    lemma_pairs_map_at(s, j - 1);
                }
            }
            assert(pairs_map(n) =~= pairs_map(s).insert(slot, v));
        }
    }

    /// Keeps each value of `other` for its slot, in place of any value kept
    /// for that slot before.
    pub fn overlay(&mut self, other: &SlotMap<V>)
        requires
            old(self).wf(),
            other.wf(),
        ensures
            final(self).wf(),
            final(self)@ == old(self)@.union_prefer_right(other@),
    {
        let ghost start = self@;
        let ghost o = other.entries@;
        let mut i: usize = 0;
        while i < other.entries.len()
            invariant
                self.wf(),
                other.wf(),
                o == other.entries@,
                i <= o.len(),
                self@ == start.union_prefer_right(pairs_map(o.subrange(0, i as int))),
            decreases other.entries.len() - i,
        {
            let (k, v) = other.entries[i];
            self.set(k, v);
            proof {
                let a = o.subrange(0, i as int);
                let b = o.subrange(0, i + 1);
                assert(sorted_pairs(a));
                assert(sorted_pairs(b));
                assert(b[i as int] == (k, v));
                lemma_pairs_map_at(b, i as int);
                assert forall|x: PciSlot| #[trigger] pairs_map(b).contains_key(x) == pairs_map(
                    a,
                ).insert(k, v).contains_key(x) by {
                    if has_slot(a, x) {
                        let j = choose|j: int| 0 <= j < a.len() && a[j].0 == x;
                        assert(b[j].0 == x);
                    }
                    if has_slot(b, x) && x != k {
                        let j = choose|j: int| 0 <= j < b.len() && b[j].0 == x;
                        assert(a[j].0 == x);
                    }
                }
                assert forall|x: PciSlot| #[trigger] pairs_map(b).contains_key(x) implies pairs_map(
                    b,
                )[x] == pairs_map(a).insert(k, v)[x] by {
                    let j = choose|j: int| 0 <= j < b.len() && b[j].0 == x;
                    lemma_pairs_map_at(b, j);
                    if j < i {
                        lemma_pairs_map_at(a, j);
                    }
                }
                assert(pairs_map(b) =~= pairs_map(a).insert(k, v));
                assert(self@ =~= start.union_prefer_right(pairs_map(b)));
            }
            i = i + 1;
        }
        assert(o.subrange(0, o.len() as int) =~= o);
    }
}

} // verus!
