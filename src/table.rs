use vstd::prelude::*;
use crate::types::{H256, Record};

verus! {

/// A table keyed by integers, its entries kept in ascending key order.
pub struct IndexTable<V: View> {
    entries: Vec<(u64, V)>,
    contents: Ghost<Map<u64, V::V>>,
}

impl<V: View> View for IndexTable<V> {
    type V = Map<u64, V::V>;

    closed spec fn view(&self) -> Map<u64, V::V> {
        self.contents@
    }
}

impl<V: Record> IndexTable<V> {
    pub closed spec fn wf(&self) -> bool {
        &&& forall|i: int, j: int|
            0 <= i < j < self.entries@.len() ==> #[trigger] self.entries@[i].0
                < #[trigger] self.entries@[j].0
        &&& forall|i: int|
            0 <= i < self.entries@.len() ==> self.contents@.contains_key(
                #[trigger] self.entries@[i].0,
            ) && self.contents@[self.entries@[i].0] == self.entries@[i].1@
        &&& forall|k: u64| #[trigger]
            self.contents@.contains_key(k) ==> exists|i: int|
                0 <= i < self.entries@.len() && self.entries@[i].0 == k
    }

    /// The keys held, in ascending order.
    pub closed spec fn keys(&self) -> Seq<u64> {
        self.entries@.map_values(|e: (u64, V)| e.0)
    }

    pub fn new() -> (r: Self)
        ensures
            r.wf(),
            r@ == Map::<u64, V::V>::empty(),
    {
        IndexTable { entries: Vec::new(), contents: Ghost(Map::empty()) }
    }

    pub fn get(&self, k: u64) -> (r: Option<V>)
        requires
            self.wf(),
        ensures
            match r {
                Some(v) => self@.contains_key(k) && v@ == self@[k],
                None => !self@.contains_key(k),
            },
    {
        let mut i: usize = 0;
        while i < self.entries.len()
            invariant
                0 <= i <= self.entries@.len(),
                self.wf(),
                forall|j: int| 0 <= j < i ==> self.entries@[j].0 != k,
            decreases self.entries@.len() - i,
        {
            if self.entries[i].0 == k {
                assert(self.contents@.contains_key(self.entries@[i as int].0));
                return Some(self.entries[i].1.duplicate());
            }
            i = i + 1;
        }
        None
    }

    pub fn insert(&mut self, k: u64, v: V)
        requires
            old(self).wf(),
        ensures
            final(self).wf(),
            final(self)@ == old(self)@.insert(k, v@),
    {
        let ghost vv = v@;
        let ghost old_entries = self.entries@;
        let mut p: usize = 0;
        while p < self.entries.len() && self.entries[p].0 < k
            invariant
                0 <= p <= self.entries@.len(),
                self.entries@ == old_entries,
                forall|j: int| 0 <= j < p ==> self.entries@[j].0 < k,
            decreases self.entries@.len() - p,
        {
            p = p + 1;
        }
        let ghost new_contents = self.contents@.insert(k, vv);
        if p < self.entries.len() && self.entries[p].0 == k {
            self.entries.set(p, (k, v));
            self.contents = Ghost(new_contents);
            assert forall|kk: u64| #[trigger]
                self.contents@.contains_key(kk) implies exists|i: int|
                0 <= i < self.entries@.len() && self.entries@[i].0 == kk by {
                if kk == k {
                    assert(self.entries@[p as int].0 == kk);
                } else {
                    let i = choose|i: int| 0 <= i < old_entries.len() && old_entries[i].0 == kk;
                    assert(old_entries[p as int].0 == k);
                    assert(self.entries@ == old_entries.update(p as int, (k, v)));
                    assert(i != p);
                    assert(self.entries@[i].0 == kk);
                }
            }
        } else {
            self.entries.insert(p, (k, v));
            self.contents = Ghost(new_contents);
            proof {
                old_entries.insert_ensures(p as int, (k, v));
                assert(self.entries@ == old_entries.insert(p as int, (k, v)));
                assert forall|i: int, j: int|
                    0 <= i < j < self.entries@.len() implies #[trigger] self.entries@[i].0
                    < #[trigger] self.entries@[j].0 by {
                    if j < p {
                    } else if j == p {
                    } else if i < p {
                        assert(self.entries@[j] == old_entries[j - 1]);
                    } else if i == p {
                        assert(self.entries@[j] == old_entries[j - 1]);
                        assert(old_entries[p as int].0 > k);
                    } else {
                        assert(self.entries@[j] == old_entries[j - 1]);
                        assert(self.entries@[i] == old_entries[i - 1]);
                    }
                }
                assert forall|i: int| 0 <= i < self.entries@.len() implies self.contents@.contains_key(
                    #[trigger] self.entries@[i].0,
                ) && self.contents@[self.entries@[i].0] == self.entries@[i].1@ by {
                    if i > p {
                        assert(self.entries@[i] == old_entries[i - 1]);
                        assert(old_entries[p as int].0 > k);
                        assert(old_entries[i - 1].0 >= old_entries[p as int].0);
                    }
                }
                assert forall|kk: u64| #[trigger]
                    self.contents@.contains_key(kk) implies exists|i: int|
                    0 <= i < self.entries@.len() && self.entries@[i].0 == kk by {
                    if kk == k {
                        assert(self.entries@[p as int].0 == kk);
                    } else {
                        let i = choose|i: int| 0 <= i < old_entries.len() && old_entries[i].0 == kk;
                        if i < p {
                            assert(self.entries@[i].0 == kk);
                        } else {
                            assert(self.entries@[i + 1].0 == kk);
                        }
                    }
                }
            }
        }
    }

    /// The values, in ascending order of their keys.
    pub fn values(&self) -> (r: Vec<V>)
        requires
            self.wf(),
        ensures
            r@.len() == self.keys().len(),
            forall|i: int| 0 <= i < r@.len() ==> (#[trigger] r@[i])@ == self@[self.keys()[i]],
            forall|i: int, j: int|
                0 <= i < j < self.keys().len() ==> self.keys()[i] < self.keys()[j],
            forall|k: u64| self@.contains_key(k) <==> self.keys().contains(k),
    {
        let mut out: Vec<V> = Vec::new();
        let mut i: usize = 0;
        while i < self.entries.len()
            invariant
                0 <= i <= self.entries@.len(),
                out@.len() == i,
                forall|j: int| 0 <= j < i ==> (#[trigger] out@[j])@ == self.entries@[j].1@,
            decreases self.entries@.len() - i,
        {
            out.push(self.entries[i].1.duplicate());
            i = i + 1;
        }
        assert forall|k: u64| self@.contains_key(k) <==> self.keys().contains(k) by {
            if self@.contains_key(k) {
                let i = choose|i: int| 0 <= i < self.entries@.len() && self.entries@[i].0 == k;
                assert(self.keys()[i] == k);
            }
            if self.keys().contains(k) {
                let i = choose|i: int| 0 <= i < self.keys().len() && self.keys()[i] == k;
                assert(self.entries@[i].0 == k);
            }
        }
        out
    }
}

/// A table keyed by hashes.
pub struct RootTable<V: View> {
    entries: Vec<(H256, V)>,
    contents: Ghost<Map<Seq<u8>, V::V>>,
}

impl<V: View> View for RootTable<V> {
    type V = Map<Seq<u8>, V::V>;

    closed spec fn view(&self) -> Map<Seq<u8>, V::V> {
        self.contents@
    }
}

impl<V: Record> RootTable<V> {
    pub closed spec fn wf(&self) -> bool {
        &&& forall|i: int, j: int|
            0 <= i < j < self.entries@.len() ==> #[trigger] self.entries@[i].0@
                != #[trigger] self.entries@[j].0@
        &&& forall|i: int|
            0 <= i < self.entries@.len() ==> self.contents@.contains_key(
                #[trigger] self.entries@[i].0@,
            ) && self.contents@[self.entries@[i].0@] == self.entries@[i].1@
        &&& forall|k: Seq<u8>| #[trigger]
            self.contents@.contains_key(k) ==> exists|i: int|
                0 <= i < self.entries@.len() && self.entries@[i].0@ == k
    }

    pub fn new() -> (r: Self)
        ensures
            r.wf(),
            r@ == Map::<Seq<u8>, V::V>::empty(),
    {
        RootTable { entries: Vec::new(), contents: Ghost(Map::empty()) }
    }

    fn position(&self, k: &H256) -> (r: Option<usize>)
        requires
            self.wf(),
        ensures
            match r {
                Some(i) => i < self.entries@.len() && self.entries@[i as int].0@ == k@,
                None => !self@.contains_key(k@),
            },
    {
        let mut i: usize = 0;
        while i < self.entries.len()
            invariant
                0 <= i <= self.entries@.len(),
                forall|j: int| 0 <= j < i ==> self.entries@[j].0@ != k@,
            decreases self.entries@.len() - i,
        {
            if self.entries[i].0.same_as(k) {
                return Some(i);
            }
            i = i + 1;
        }
        None
    }

    pub fn get(&self, k: &H256) -> (r: Option<V>)
        requires
            self.wf(),
        ensures
            match r {
                Some(v) => self@.contains_key(k@) && v@ == self@[k@],
                None => !self@.contains_key(k@),
            },
    {
        match self.position(k) {
            Some(i) => Some(self.entries[i].1.duplicate()),
            None => None,
        }
    }

    pub fn insert(&mut self, k: H256, v: V)
        requires
            old(self).wf(),
        ensures
            final(self).wf(),
            final(self)@ == old(self)@.insert(k@, v@),
    {
        let ghost old_entries = self.entries@;
        let ghost new_contents = self.contents@.insert(k@, v@);
        match self.position(&k) {
            Some(i) => {
                self.entries.set(i, (k, v));
                self.contents = Ghost(new_contents);
                assert forall|kk: Seq<u8>| #[trigger]
                    self.contents@.contains_key(kk) implies exists|j: int|
                    0 <= j < self.entries@.len() && self.entries@[j].0@ == kk by {
                    if kk == k@ {
                        assert(self.entries@[i as int].0@ == kk);
                    } else {
                        let j = choose|j: int|
                            0 <= j < old_entries.len() && old_entries[j].0@ == kk;
                        assert(self.entries@ == old_entries.update(i as int, (k, v)));
                        assert(j != i);
                        assert(self.entries@[j].0@ == kk);
                    }
                }
            },
            None => {
                self.entries.push((k, v));
                self.contents = Ghost(new_contents);
                assert forall|kk: Seq<u8>| #[trigger]
                    self.contents@.contains_key(kk) implies exists|j: int|
                    0 <= j < self.entries@.len() && self.entries@[j].0@ == kk by {
                    if kk == k@ {
                        assert(self.entries@[old_entries.len() as int].0@ == kk);
                    } else {
                        let j = choose|j: int|
                            0 <= j < old_entries.len() && old_entries[j].0@ == kk;
                        assert(self.entries@[j].0@ == kk);
                    }
                }
            },
        }
    }
}

} // verus!
