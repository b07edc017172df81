//! A keyed table from pairs of identifiers to amounts.
//!
//! Two regions of state have this shape: the share ledger, keyed by (pool
//! address, provider account), and a token ledger's balances, keyed by (asset
//! id, account). Besides the map abstraction, the table exposes the sum of
//! all amounts stored under one first component — the total of a pool's
//! shares over its providers — and its mutators say exactly how that sum
//! moves, which is what ties each pool's share total to the share ledger.

use vstd::prelude::*;

verus! {

/// The amount stored under `(a, b)`, taking a missing record as zero.
pub open spec fn entry_or_zero(m: Map<(u64, u64), u64>, a: u64, b: u64) -> int {
    if m.contains_key((a, b)) {
        m[(a, b)] as int
    } else {
        0
    }
}

/// An association table from pairs of `u64` keys to `u64` amounts.
pub struct PairTable {
    entries: Vec<((u64, u64), u64)>,
}

impl View for PairTable {
    type V = Map<(u64, u64), u64>;

    closed spec fn view(&self) -> Map<(u64, u64), u64> {
        PairTable::map_of(self.entries@)
    }
}

impl PairTable {
    /// The map held by a sequence of entries.
    spec fn map_of(s: Seq<((u64, u64), u64)>) -> Map<(u64, u64), u64>
        decreases s.len(),
    {
        if s.len() == 0 {
            Map::empty()
        } else {
            Self::map_of(s.drop_last()).insert(s.last().0, s.last().1)
        }
    }

    /// The sum of the amounts stored under first component `group`.
    spec fn sum_of(s: Seq<((u64, u64), u64)>, group: u64) -> int
        decreases s.len(),
    {
        if s.len() == 0 {
            0
        } else {
            Self::sum_of(s.drop_last(), group) + if s.last().0.0 == group {
                s.last().1 as int
            } else {
                0
            }
        }
    }

    /// The sum of all amounts whose key starts with `group`: for the share
    /// ledger, the total of a pool's shares over all providers.
    pub closed spec fn group_sum(self, group: u64) -> int {
        Self::sum_of(self.entries@, group)
    }

    /// Well-formed: the entry keys are pairwise distinct.
    pub closed spec fn wf(self) -> bool {
        forall|i: int, j: int|
            0 <= i < j < self.entries@.len() ==> (#[trigger] self.entries@[i]).0 != (
            #[trigger] self.entries@[j]).0
    }

    /// Every entry's key is in the table's map.
    proof fn lemma_entry_in_map(s: Seq<((u64, u64), u64)>, i: int)
        requires
            0 <= i < s.len(),
        ensures
            Self::map_of(s).contains_key(s[i].0),
        decreases s.len(),
    {
        if i < s.len() - 1 {
            Self::lemma_entry_in_map(s.drop_last(), i);
        }
    }

    /// A key held by no entry is not in the table's map.
    proof fn lemma_absent(s: Seq<((u64, u64), u64)>, key: (u64, u64))
        requires
            forall|j: int| 0 <= j < s.len() ==> (#[trigger] s[j]).0 != key,
        ensures
            !Self::map_of(s).contains_key(key),
        decreases s.len(),
    {
        if s.len() > 0 {
            Self::lemma_absent(s.drop_last(), key);
        }
    }

    /// With distinct keys, the entry that holds a key gives its map value.
    proof fn lemma_found(s: Seq<((u64, u64), u64)>, i: int)
        requires
            forall|p: int, q: int|
                0 <= p < q < s.len() ==> (#[trigger] s[p]).0 != (#[trigger] s[q]).0,
            0 <= i < s.len(),
        ensures
            Self::map_of(s).contains_key(s[i].0),
            Self::map_of(s)[s[i].0] == s[i].1,
        decreases s.len(),
    {
        if i < s.len() - 1 {
            Self::lemma_found(s.drop_last(), i);
        }
    }

    /// Updating the entry that holds a key updates the map at that key.
    proof fn lemma_update(s: Seq<((u64, u64), u64)>, i: int, value: u64)
        requires
            forall|p: int, q: int|
                0 <= p < q < s.len() ==> (#[trigger] s[p]).0 != (#[trigger] s[q]).0,
            0 <= i < s.len(),
        ensures
            Self::map_of(s.update(i, (s[i].0, value))) == Self::map_of(s).insert(s[i].0, value),
        decreases s.len(),
    {
        let key = s[i].0;
        let t = s.update(i, (key, value));
        if i == s.len() - 1 {
            assert(t.drop_last() =~= s.drop_last());
            assert(Self::map_of(t) =~= Self::map_of(s).insert(key, value));
        } else {
            Self::lemma_update(s.drop_last(), i, value);
            assert(t.drop_last() =~= s.drop_last().update(i, (key, value)));
            assert(s.last().0 != key);
            assert(Self::map_of(t) =~= Self::map_of(s).insert(key, value));
        }
    }

    /// Updating one entry moves each group sum by that entry's contribution.
    proof fn lemma_sum_update(s: Seq<((u64, u64), u64)>, i: int, value: u64, group: u64)
        requires
            0 <= i < s.len(),
        ensures
            Self::sum_of(s.update(i, (s[i].0, value)), group) == Self::sum_of(s, group) - (
            if s[i].0.0 == group {
                s[i].1 as int
            } else {
                0
            }) + (if s[i].0.0 == group {
                value as int
            } else {
                0
            }),
        decreases s.len(),
    {
        let t = s.update(i, (s[i].0, value));
        if i == s.len() - 1 {
            assert(t.drop_last() =~= s.drop_last());
        } else {
            Self::lemma_sum_update(s.drop_last(), i, value, group);
            assert(t.drop_last() =~= s.drop_last().update(i, (s[i].0, value)));
        }
    }

    /// Appending an entry adds its contribution to each group sum.
    proof fn lemma_sum_push(s: Seq<((u64, u64), u64)>, e: ((u64, u64), u64), group: u64)
        ensures
            Self::sum_of(s.push(e), group) == Self::sum_of(s, group) + (if e.0.0 == group {
                e.1 as int
            } else {
                0
            }),
    {
        assert(s.push(e).drop_last() =~= s);
    }

    /// A group that no entry belongs to sums to zero.
    proof fn lemma_sum_no_group(s: Seq<((u64, u64), u64)>, group: u64)
        requires
            forall|j: int| 0 <= j < s.len() ==> (#[trigger] s[j]).0.0 != group,
        ensures
            Self::sum_of(s, group) == 0,
        decreases s.len(),
    {
        if s.len() > 0 {
            Self::lemma_sum_no_group(s.drop_last(), group);
        }
    }

    /// A group with no record in the map sums to zero.
    pub proof fn lemma_empty_group_sum(self, group: u64)
        requires
            forall|b: u64| !self@.contains_key((group, b)),
        ensures
            self.group_sum(group) == 0,
    {
        let s = self.entries@;
        assert forall|j: int| 0 <= j < s.len() implies (#[trigger] s[j]).0.0 != group by {
            if s[j].0.0 == group {
                Self::lemma_entry_in_map(s, j);
                assert(self@.contains_key((group, s[j].0.1)));
            }
        }
        Self::lemma_sum_no_group(s, group);
    }

    /// An empty table.
    pub fn new() -> (r: Self)
        ensures
            r.wf(),
            r@ == Map::<(u64, u64), u64>::empty(),
            forall|g: u64| #[trigger] r.group_sum(g) == 0,
    {
        let t = PairTable { entries: Vec::new() };
        proof {
            assert(t@ =~= Map::<(u64, u64), u64>::empty());
        }
        t
    }

    /// The amount stored under `(a, b)`, if any record exists.
    pub fn get(&self, a: u64, b: u64) -> (r: Option<u64>)
        requires
            self.wf(),
        ensures
            r == (if self@.contains_key((a, b)) {
                Some(self@[(a, b)])
            } else {
                None::<u64>
            }),
    {
        let n = self.entries.len();
        let mut i: usize = 0;
        while i < n
            invariant
                n == self.entries@.len(),
                i <= n,
                self.wf(),
                forall|j: int| 0 <= j < i ==> (#[trigger] self.entries@[j]).0 != (a, b),
            decreases n - i,
        {
            let e = self.entries[i];
            if e.0.0 == a && e.0.1 == b {
                proof {
                    Self::lemma_found(self.entries@, i as int);
                }
                return Some(e.1);
            }
            i += 1;
        }
        proof {
            Self::lemma_absent(self.entries@, (a, b));
        }
        None
    }

    /// Stores `value` under `(group, member)`, replacing any earlier value,
    /// and moves the group's sum by exactly the difference.
    pub fn set(&mut self, group: u64, member: u64, value: u64)
        requires
            old(self).wf(),
        ensures
            final(self).wf(),
            final(self)@ == old(self)@.insert((group, member), value),
            final(self).group_sum(group) == old(self).group_sum(group) - entry_or_zero(
                old(self)@,
                group,
                member,
            ) + value,
            forall|g: u64|
                g != group ==> #[trigger] final(self).group_sum(g) == old(self).group_sum(g),
    {
        let n = self.entries.len();
        let mut i: usize = 0;
        while i < n
            invariant
                n == self.entries@.len(),
                i <= n,
                self == old(self),
                self.wf(),
                forall|j: int| 0 <= j < i ==> (#[trigger] self.entries@[j]).0 != (group, member),
            decreases n - i,
        {
            let e = self.entries[i];
            if e.0.0 == group && e.0.1 == member {
                proof {
                    Self::lemma_found(self.entries@, i as int);
                    Self::lemma_update(self.entries@, i as int, value);
                    assert forall|g: u64| true implies #[trigger] Self::sum_of(
                        self.entries@.update(i as int, ((group, member), value)),
                        g,
                    ) == Self::sum_of(self.entries@, g) - (if group == g {
                        self.entries@[i as int].1 as int
                    } else {
                        0
                    }) + (if group == g {
                        value as int
                    } else {
                        0
                    }) by {
                        Self::lemma_sum_update(self.entries@, i as int, value, g);
                    }
                }
                self.entries.set(i, ((group, member), value));
                return;
            }
            i += 1;
        }
        proof {
            Self::lemma_absent(self.entries@, (group, member));
            assert forall|g: u64| true implies #[trigger] Self::sum_of(
                self.entries@.push(((group, member), value)),
                g,
            ) == Self::sum_of(self.entries@, g) + (if group == g {
                value as int
            } else {
                0
            }) by {
                Self::lemma_sum_push(self.entries@, ((group, member), value), g);
            }
        }
        self.entries.push(((group, member), value));
        proof {
            assert(self.entries@.drop_last() =~= old(self).entries@);
            assert(self@ =~= old(self)@.insert((group, member), value));
        }
    }
}

} // verus!
