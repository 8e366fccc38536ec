//! The per-session breakpoint table: a mapping from memory address to the
//! numeric breakpoint id recorded for it.
//!
//! An address maps to at most one id. Recording at an already-mapped
//! address replaces the previous entry atomically (replace semantics);
//! clearing an unmapped address is a no-op.

use vstd::prelude::*;

verus! {

/// The mapping a sequence of (address, id) entries denotes; a later entry
/// for the same address wins.
pub open spec fn map_of(s: Seq<(u64, u32)>) -> Map<u64, u32>
    decreases s.len(),
{
    if s.len() == 0 {
        Map::empty()
    } else {
        map_of(s.drop_last()).insert(s.last().0, s.last().1)
    }
}

/// No two entries share an address.
pub open spec fn distinct_addrs(s: Seq<(u64, u32)>) -> bool {
    forall|i: int, j: int| 0 <= i < j < s.len() ==> (#[trigger] s[i]).0 != (#[trigger] s[j]).0
}

/// An address is a key of the denoted map exactly when some entry carries
/// it.
pub proof fn lemma_map_of_contains(s: Seq<(u64, u32)>)
    ensures
        forall|a: u64|
            #[trigger] map_of(s).contains_key(a) <==> exists|i: int|
                0 <= i < s.len() && (#[trigger] s[i]).0 == a,
    decreases s.len(),
{
    if s.len() > 0 {
        lemma_map_of_contains(s.drop_last());
        assert forall|a: u64| #[trigger] map_of(s).contains_key(a) implies exists|i: int|
            0 <= i < s.len() && (#[trigger] s[i]).0 == a by {
            if a == s.last().0 {
                assert((s[s.len() - 1]).0 == a);
            } else {
                assert(map_of(s.drop_last()).contains_key(a));
                let i = choose|i: int|
                    0 <= i < s.drop_last().len() && (#[trigger] s.drop_last()[i]).0 == a;
                assert(s.drop_last()[i] == s[i]);
                assert((s[i]).0 == a);
            }
        }
        assert forall|a: u64|
            exists|i: int| 0 <= i < s.len() && (#[trigger] s[i]).0 == a
            implies #[trigger] map_of(s).contains_key(a) by {
            let i = choose|i: int| 0 <= i < s.len() && (#[trigger] s[i]).0 == a;
            if i < s.len() - 1 {
                assert(s.drop_last()[i] == s[i]);
                assert((s.drop_last()[i]).0 == a);
                assert(map_of(s.drop_last()).contains_key(a));
            }
        }
    }
}

/// With distinct addresses, each entry's id is the value its address maps
/// to.
pub proof fn lemma_map_of_values(s: Seq<(u64, u32)>)
    requires
        distinct_addrs(s),
    ensures
        forall|i: int|
            0 <= i < s.len() ==> map_of(s).contains_key((#[trigger] s[i]).0)
                && map_of(s)[s[i].0] == s[i].1,
    decreases s.len(),
{
    if s.len() > 0 {
        assert(distinct_addrs(s.drop_last()));
        lemma_map_of_values(s.drop_last());
        assert forall|i: int|
            0 <= i < s.len() implies map_of(s).contains_key((#[trigger] s[i]).0)
            && map_of(s)[s[i].0] == s[i].1 by {
            if i < s.len() - 1 {
                assert(s.drop_last()[i] == s[i]);
                assert(s[i].0 != s.last().0);
            }
        }
    }
}

/// The per-session breakpoint table.
pub struct BreakpointTable {
    entries: Vec<(u64, u32)>,
    next_id: u32,
}

impl BreakpointTable {
    /// The recorded entries, as (address, id) pairs in recording order.
    pub closed spec fn entries_seq(&self) -> Seq<(u64, u32)> {
        self.entries@
    }

    /// The table as a mapping from address to breakpoint id.
    pub closed spec fn bp_map(&self) -> Map<u64, u32> {
        map_of(self.entries@)
    }

    /// The id the next recording will be given.
    pub closed spec fn fresh_id(&self) -> u32 {
        self.next_id
    }

    /// Table validity: no two entries share an address.
    pub closed spec fn wf(&self) -> bool {
        distinct_addrs(self.entries@)
    }

    /// The map and the entry sequence agree: an address is mapped exactly
    /// when an entry carries it, and then to that entry's id.
    pub proof fn lemma_map_entries_agree(&self)
        requires
            self.wf(),
        ensures
            forall|a: u64|
                #[trigger] self.bp_map().contains_key(a) <==> exists|i: int|
                    0 <= i < self.entries_seq().len() && (#[trigger] self.entries_seq()[i]).0
                        == a,
            forall|i: int|
                0 <= i < self.entries_seq().len() ==> self.bp_map().contains_key(
                    (#[trigger] self.entries_seq()[i]).0,
                ) && self.bp_map()[self.entries_seq()[i].0] == self.entries_seq()[i].1,
    {
        lemma_map_of_contains(self.entries@);
        lemma_map_of_values(self.entries@);
        assert forall|a: u64| #[trigger] self.bp_map().contains_key(a) implies exists|i: int|
            0 <= i < self.entries_seq().len() && (#[trigger] self.entries_seq()[i]).0 == a by {
            assert(map_of(self.entries@).contains_key(a));
            let i = choose|i: int| 0 <= i < self.entries@.len() && (#[trigger] self.entries@[i]).0
                == a;
            assert((self.entries_seq()[i]).0 == a);
        }
        assert forall|a: u64|
            exists|i: int| 0 <= i < self.entries_seq().len() && (#[trigger] self.entries_seq()[i]).0
                == a implies #[trigger] self.bp_map().contains_key(a) by {
            let i = choose|i: int|
                0 <= i < self.entries_seq().len() && (#[trigger] self.entries_seq()[i]).0 == a;
            assert((self.entries@[i]).0 == a);
        }
    }

    /// A valid table records no two entries at one address.
    pub proof fn lemma_entries_distinct(&self)
        requires
            self.wf(),
        ensures
            forall|i: int, j: int|
                0 <= i < j < self.entries_seq().len() ==> (#[trigger] self.entries_seq()[i]).0 != (
                #[trigger] self.entries_seq()[j]).0,
    {
    }

    /// An empty table.
    pub fn new() -> (r: BreakpointTable)
        ensures
            r.wf(),
            r.bp_map() == Map::<u64, u32>::empty(),
            r.entries_seq() == Seq::<(u64, u32)>::empty(),
            r.fresh_id() == 0,
    {
        BreakpointTable { entries: Vec::new(), next_id: 0 }
    }

    /// How many breakpoints are recorded.
    pub fn count(&self) -> (r: usize)
        ensures
            r == self.entries_seq().len(),
    {
        self.entries.len()
    }

    /// The index of the entry recorded for an address, if any.
    fn find(&self, address: u64) -> (r: Option<usize>)
        ensures
            match r {
                Some(i) => i < self.entries_seq().len() && self.entries_seq()[i as int].0
                    == address,
                None => forall|i: int|
                    0 <= i < self.entries_seq().len() ==> (#[trigger] self.entries_seq()[i]).0
                        != address,
            },
    {
        let mut i: usize = 0;
        while i < self.entries.len()
            invariant
                0 <= i <= self.entries@.len(),
                forall|j: int| 0 <= j < i ==> (#[trigger] self.entries@[j]).0 != address,
            decreases self.entries@.len() - i,
        {
            if self.entries[i].0 == address {
                return Some(i);
            }
            i = i + 1;
        }
        None
    }

    /// The id recorded for an address, if any.
    pub fn lookup(&self, address: u64) -> (r: Option<u32>)
        requires
            self.wf(),
        ensures
            r == if self.bp_map().contains_key(address) {
                Some(self.bp_map()[address])
            } else {
                None::<u32>
            },
    {
        proof {
            lemma_map_of_contains(self.entries@);
            lemma_map_of_values(self.entries@);
        }
        match self.find(address) {
            Some(i) => Some(self.entries[i].1),
            None => None,
        }
    }

    /// Records a breakpoint at an address under a fresh id and returns the
    /// id. An entry already recorded for the address is replaced.
    pub fn record(&mut self, address: u64) -> (id: u32)
        requires
            old(self).wf(),
        ensures
            final(self).wf(),
            id == old(self).fresh_id(),
            final(self).fresh_id() == if old(self).fresh_id() == u32::MAX {
                0u32
            } else {
                (old(self).fresh_id() + 1) as u32
            },
            final(self).bp_map() == old(self).bp_map().insert(address, id),
            final(self).bp_map().contains_key(address),
    {
        let id = self.next_id;
        self.next_id = if self.next_id == u32::MAX {
            0
        } else {
            self.next_id + 1
        };
        let _ = self.forget(address);
        let ghost pruned = self.entries@;
        self.entries.push((address, id));
        proof {
            assert(self.entries@.drop_last() =~= pruned);
            assert(map_of(self.entries@) == map_of(pruned).insert(address, id));
            assert(map_of(pruned).insert(address, id) =~= map_of(old(self).entries@).insert(
                address,
                id,
            ));
            lemma_map_of_contains(pruned);
            assert(!map_of(pruned).contains_key(address));
            assert forall|p: int, q: int| 0 <= p < q < self.entries@.len() implies (
            #[trigger] self.entries@[p]).0 != (#[trigger] self.entries@[q]).0 by {
                if q == self.entries@.len() - 1 {
                    assert(self.entries@[p] == pruned[p]);
                    assert(self.entries@[q] == (address, id));
                    assert((pruned[p]).0 != address);
                } else {
                    assert(self.entries@[p] == pruned[p]);
                    assert(self.entries@[q] == pruned[q]);
                }
            }
        }
        id
    }

    /// Removes the entry recorded for an address, returning its id; `None`
    /// (and no change) when the address has no entry.
    pub fn forget(&mut self, address: u64) -> (r: Option<u32>)
        requires
            old(self).wf(),
        ensures
            final(self).wf(),
            final(self).fresh_id() == old(self).fresh_id(),
            r == if old(self).bp_map().contains_key(address) {
                Some(old(self).bp_map()[address])
            } else {
                None::<u32>
            },
            final(self).bp_map() == old(self).bp_map().remove(address),
            forall|i: int|
                0 <= i < final(self).entries_seq().len()
                    ==> (#[trigger] final(self).entries_seq()[i]).0 != address,
    {
        proof {
            lemma_map_of_contains(old(self).entries@);
            lemma_map_of_values(old(self).entries@);
        }
        match self.find(address) {
            Some(i) => {
                let ghost s = self.entries@;
                let (_, id) = self.entries.swap_remove(i);
                proof {
                    let t = s.update(i as int, s.last()).drop_last();
                    assert(self.entries@ == t);
                    assert forall|p: int, q: int| 0 <= p < q < t.len() implies (
                    #[trigger] t[p]).0 != (#[trigger] t[q]).0 by {
                        if p == i {
                            assert(t[p] == s[s.len() - 1]);
                            assert(t[q] == s[q]);
                        } else if q == i {
                            assert(t[q] == s[s.len() - 1]);
                            assert(t[p] == s[p]);
                        } else {
                            assert(t[p] == s[p]);
                            assert(t[q] == s[q]);
                        }
                    }
                    lemma_map_of_contains(t);
                    lemma_map_of_values(t);
                    assert forall|a: u64| #[trigger] map_of(t).contains_key(a) implies map_of(
                        s,
                    ).remove(address).contains_key(a) by {
                        let j = choose|j: int| 0 <= j < t.len() && (#[trigger] t[j]).0 == a;
                        if j == i {
                            assert(s[s.len() - 1].0 == a);
                        } else {
                            assert(s[j].0 == a);
                        }
                        assert(a != address);
                    }
                    assert forall|a: u64| #[trigger] map_of(s).remove(address).contains_key(
                        a,
                    ) implies map_of(t).contains_key(a) && map_of(t)[a] == map_of(s).remove(
                        address,
                    )[a] by {
                        let j = choose|j: int| 0 <= j < s.len() && (#[trigger] s[j]).0 == a;
                        if j == s.len() - 1 {
                            if i < s.len() - 1 {
                                assert(t[i as int] == s[s.len() - 1]);
                                assert(map_of(t)[a] == s[j].1);
                            } else {
                                assert(false);
                            }
                        } else {
                            assert(t[j] == s[j]);
                            assert(map_of(t)[a] == s[j].1);
                        }
                        assert(map_of(s)[a] == s[j].1);
                    }
                    assert(map_of(t) =~= map_of(s).remove(address));
                }
                Some(id)
            }
            None => {
                proof {
                    assert(!map_of(self.entries@).contains_key(address)) by {
                        if map_of(self.entries@).contains_key(address) {
                            let j = choose|j: int|
                                0 <= j < self.entries@.len() && (#[trigger] self.entries@[j]).0
                                    == address;
                            assert((self.entries@[j]).0 != address);
                        }
                    }
                    assert(map_of(self.entries@) =~= map_of(self.entries@).remove(address));
                }
                None
            }
        }
    }

    /// The recorded breakpoints as (id, address) pairs, in recording
    /// order.
    pub fn list(&self) -> (r: Vec<(u32, u64)>)
        ensures
            r@.len() == self.entries_seq().len(),
            forall|i: int|
                0 <= i < r@.len() ==> #[trigger] r@[i] == (
                    self.entries_seq()[i].1,
                    self.entries_seq()[i].0,
                ),
    {
        let mut r: Vec<(u32, u64)> = Vec::new();
        let mut i: usize = 0;
        while i < self.entries.len()
            invariant
                0 <= i <= self.entries@.len(),
                r@.len() == i,
                forall|j: int|
                    0 <= j < i ==> #[trigger] r@[j] == (self.entries@[j].1, self.entries@[j].0),
            decreases self.entries@.len() - i,
        {
            let (addr, id) = self.entries[i];
            r.push((id, addr));
            i = i + 1;
        }
        r
    }
}

} // verus!
