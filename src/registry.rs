//! A table of per-identity records, keyed by the identity string.

use vstd::prelude::*;

verus! {

/// Records keyed by identity; each identity occurs at most once.
pub struct Registry<V> {
    entries: Vec<(String, V)>,
}

impl<V: Copy> Registry<V> {
    /// The identities and records, as a map.
    pub closed spec fn view(&self) -> Map<Seq<char>, V> {
        Map::new(
            |k: Seq<char>| exists|i: int| 0 <= i < self.entries@.len() && #[trigger] self.entries@[i].0@ == k,
            |k: Seq<char>|
                self.entries@[choose|i: int|
                    0 <= i < self.entries@.len() && #[trigger] self.entries@[i].0@ == k].1,
        )
    }

    /// No identity occurs twice.
    pub closed spec fn wf(&self) -> bool {
        forall|i: int, j: int|
            0 <= i < self.entries@.len() && 0 <= j < self.entries@.len() && i != j
                ==> #[trigger] self.entries@[i].0@ != #[trigger] self.entries@[j].0@
    }

    /// An empty table.
    pub fn new() -> (r: Self)
        ensures
            r.wf(),
            r.view() == Map::<Seq<char>, V>::empty(),
    {
        let r = Registry { entries: Vec::new() };
        assert(r.view() =~= Map::<Seq<char>, V>::empty());
        r
    }

    /// The position of `key`, if present.
    fn position(&self, key: &String) -> (r: Option<usize>)
        requires
            self.wf(),
        ensures
            r matches Some(i) ==> i < self.entries@.len() && self.entries@[i as int].0@ == key@,
            r is None ==> forall|i: int|
                0 <= i < self.entries@.len() ==> #[trigger] self.entries@[i].0@ != key@,
    {
        let mut i: usize = 0;
        while i < self.entries.len()
            invariant
                i <= self.entries@.len(),
                forall|j: int| 0 <= j < i ==> #[trigger] self.entries@[j].0@ != key@,
            decreases self.entries@.len() - i,
        {
            if self.entries[i].0 == *key {
                return Some(i);
            }
            i = i + 1;
        }
        None
    }

    proof fn lemma_view_at(&self, i: int)
        requires
            self.wf(),
            0 <= i < self.entries@.len(),
        ensures
            self.view().contains_key(self.entries@[i].0@),
            self.view()[self.entries@[i].0@] == self.entries@[i].1,
    {
        let k = self.entries@[i].0@;
        assert(self.entries@[i].0@ == k);
        let j = choose|j: int| 0 <= j < self.entries@.len() && #[trigger] self.entries@[j].0@ == k;
        assert(i == j);
    }

    /// The record of `key`, if there is one.
    pub fn get(&self, key: &str) -> (r: Option<V>)
        requires
            self.wf(),
        ensures
            r == (if self.view().contains_key(key@) { Some(self.view()[key@]) } else { None }),
    {
        let k = key.to_owned();
        match self.position(&k) {
            Some(i) => {
                proof {
                    self.lemma_view_at(i as int);
                }
                Some(self.entries[i].1)
            },
            None => {
                assert(!self.view().contains_key(key@));
                None
            },
        }
    }

    /// Stores `value` as the record of `key`, replacing any earlier one.
    pub fn put(&mut self, key: &str, value: V)
        requires
            old(self).wf(),
        ensures
            final(self).wf(),
            final(self).view() == old(self).view().insert(key@, value),
    {
        let k = key.to_owned();
        let ghost before = self.entries@;
        match self.position(&k) {
            Some(i) => {
                self.entries.set(i, (k, value));
                proof {
                    assert forall|a: int, b: int|
                        0 <= a < self.entries@.len() && 0 <= b < self.entries@.len() && a != b
                            implies #[trigger] self.entries@[a].0@ != #[trigger] self.entries@[b].0@ by {
                        if a != i && b != i {
                            assert(before[a].0@ != before[b].0@);
                        } else if a == i {
                            assert(before[i as int].0@ != before[b].0@);
                        } else {
                            assert(before[a].0@ != before[i as int].0@);
                        }
                    }
                    assert forall|q: Seq<char>| #[trigger] self.view().contains_key(q)
                        == old(self).view().insert(key@, value).contains_key(q) by {
                        if q != key@ {
                            if exists|a: int| 0 <= a < before.len() && #[trigger] before[a].0@ == q {
                                let a = choose|a: int| 0 <= a < before.len() && #[trigger] before[a].0@ == q;
                                assert(self.entries@[a].0@ == q);
                            }
                            if exists|a: int| 0 <= a < self.entries@.len() && #[trigger] self.entries@[a].0@ == q {
                                let a = choose|a: int| 0 <= a < self.entries@.len() && #[trigger] self.entries@[a].0@ == q;
                                assert(before[a].0@ == q);
                            }
                        } else {
                            assert(self.entries@[i as int].0@ == q);
                        }
                    }
                    assert forall|q: Seq<char>| #[trigger] self.view().contains_key(q)
                        implies self.view()[q] == old(self).view().insert(key@, value)[q] by {
                        let a = choose|a: int| 0 <= a < self.entries@.len() && #[trigger] self.entries@[a].0@ == q;
                        self.lemma_view_at(a);
                        if q != key@ {
                            assert(a != i);
                            assert(before[a] == self.entries@[a]);
                            old(self).lemma_view_at(a);
                        } else {
                            assert(a == i);
                        }
                    }
                    assert(self.view() =~= old(self).view().insert(key@, value));
                }
            },
            None => {
                self.entries.push((k, value));
                proof {
                    let n = before.len() as int;
                    assert forall|a: int, b: int|
                        0 <= a < self.entries@.len() && 0 <= b < self.entries@.len() && a != b
                            implies #[trigger] self.entries@[a].0@ != #[trigger] self.entries@[b].0@ by {
                        if a != n && b != n {
                            assert(before[a].0@ != before[b].0@);
                        } else if a == n {
                            assert(before[b].0@ != key@);
                        } else {
                            assert(before[a].0@ != key@);
                        }
                    }
                    assert forall|q: Seq<char>| #[trigger] self.view().contains_key(q)
                        == old(self).view().insert(key@, value).contains_key(q) by {
                        if q != key@ {
                            if exists|a: int| 0 <= a < before.len() && #[trigger] before[a].0@ == q {
                                let a = choose|a: int| 0 <= a < before.len() && #[trigger] before[a].0@ == q;
                                assert(self.entries@[a].0@ == q);
                            }
                            if exists|a: int| 0 <= a < self.entries@.len() && #[trigger] self.entries@[a].0@ == q {
                                let a = choose|a: int| 0 <= a < self.entries@.len() && #[trigger] self.entries@[a].0@ == q;
                                assert(a != n);
                                assert(before[a].0@ == q);
                            }
                        } else {
                            assert(self.entries@[n].0@ == q);
                        }
                    }
                    assert forall|q: Seq<char>| #[trigger] self.view().contains_key(q)
                        implies self.view()[q] == old(self).view().insert(key@, value)[q] by {
                        let a = choose|a: int| 0 <= a < self.entries@.len() && #[trigger] self.entries@[a].0@ == q;
                        self.lemma_view_at(a);
                        if q != key@ {
                            assert(a != n);
                            assert(before[a] == self.entries@[a]);
                            old(self).lemma_view_at(a);
                        } else {
                            assert(a == n);
                        }
                    }
                    assert(self.view() =~= old(self).view().insert(key@, value));
                }
            },
        }
    }
}

} // verus!
