//! A small map from names to values, the lexical scopes of the evidence.
use vstd::prelude::*;
use crate::text::str_eq;

verus! {

/// Entries with distinct names; the view is the map they spell.
pub struct Table<V> {
    pub entries: Vec<(String, V)>,
}

pub open spec fn has_key<V>(e: Seq<(String, V)>, k: Seq<char>) -> bool {
    exists|i: int| 0 <= i < e.len() && (#[trigger] e[i]).0@ == k
}

pub open spec fn index_of<V>(e: Seq<(String, V)>, k: Seq<char>) -> int {
    choose|i: int| 0 <= i < e.len() && (#[trigger] e[i]).0@ == k
}

pub open spec fn entries_map<V>(e: Seq<(String, V)>) -> Map<Seq<char>, V> {
    Map::new(|k: Seq<char>| has_key(e, k), |k: Seq<char>| e[index_of(e, k)].1)
}

pub open spec fn unique_keys<V>(e: Seq<(String, V)>) -> bool {
    forall|i: int, j: int|
        0 <= i < e.len() && 0 <= j < e.len() && i != j ==> (#[trigger] e[i]).0@ != (#[trigger] e[j]).0@
}

/// In a table with distinct names, an entry's name maps to its value.
pub proof fn lemma_entry_value<V>(e: Seq<(String, V)>, i: int)
    requires
        unique_keys(e),
        0 <= i < e.len(),
    ensures
        entries_map(e).contains_key(e[i].0@),
        entries_map(e)[e[i].0@] == e[i].1,
{
    let k = e[i].0@;
    assert(has_key(e, k));
    let j = index_of(e, k);
    assert(e[j].0@ == k);
}

impl<V> View for Table<V> {
    type V = Map<Seq<char>, V>;

    open spec fn view(&self) -> Map<Seq<char>, V> {
        entries_map(self.entries@)
    }
}

impl<V> Table<V> {
    pub open spec fn wf(&self) -> bool {
        unique_keys(self.entries@)
    }

    pub fn new() -> (r: Self)
        ensures
            r.wf(),
            r@ == Map::<Seq<char>, V>::empty(),
    {
        let r = Table { entries: Vec::new() };
        assert(r@ =~= Map::<Seq<char>, V>::empty());
        r
    }

    /// The index of the entry named `key`.
    pub fn position(&self, key: &str) -> (r: Option<usize>)
        requires
            self.wf(),
        ensures
            r matches Some(i) ==> i < self.entries@.len() && self.entries@[i as int].0@ == key@,
            r is None ==> !self@.contains_key(key@),
    {
        let mut i: usize = 0;
        while i < self.entries.len()
            invariant
                i <= self.entries@.len(),
                forall|j: int| 0 <= j < i ==> (#[trigger] self.entries@[j]).0@ != key@,
            decreases self.entries@.len() - i,
        {
            if str_eq(self.entries[i].0.as_str(), key) {
                return Some(i);
            }
            i = i + 1;
        }
        None
    }

    pub fn get(&self, key: &str) -> (r: Option<&V>)
        requires
            self.wf(),
        ensures
            r matches Some(v) ==> self@.contains_key(key@) && self@[key@] == *v,
            r is None ==> !self@.contains_key(key@),
    {
        match self.position(key) {
            Some(i) => {
                proof {
                    lemma_entry_value(self.entries@, i as int);
                }
                Some(&self.entries[i].1)
            },
            None => None,
        }
    }

    pub fn contains_key(&self, key: &str) -> (r: bool)
        requires
            self.wf(),
        ensures
            r == self@.contains_key(key@),
    {
        match self.position(key) {
            Some(i) => {
                proof {
                    lemma_entry_value(self.entries@, i as int);
                }
                true
            },
            None => false,
        }
    }

    pub fn remove(&mut self, key: &str)
        requires
            old(self).wf(),
        ensures
            final(self).wf(),
            final(self)@ == old(self)@.remove(key@),
    {
        match self.position(key) {
            Some(i) => {
                let ghost before = self.entries@;
                let _ = self.entries.remove(i);
                let ghost after = self.entries@;
                assert(after =~= before.remove(i as int));
                assert(unique_keys(after)) by {
                    assert forall|a: int, b: int|
                        0 <= a < after.len() && 0 <= b < after.len() && a != b implies (#[trigger] after[a]).0@
                        != (#[trigger] after[b]).0@ by {
                        let a2 = if a < i { a } else { a + 1 };
                        let b2 = if b < i { b } else { b + 1 };
                        assert(after[a] == before[a2]);
                        assert(after[b] == before[b2]);
                    }
                }
                assert forall|k: Seq<char>| #[trigger] has_key(after, k) <==> has_key(before, k) && k != key@ by {
                    if has_key(after, k) {
                        let a = choose|a: int| 0 <= a < after.len() && (#[trigger] after[a]).0@ == k;
                        let a2 = if a < i { a } else { a + 1 };
                        assert(after[a] == before[a2]);
                        assert(before[a2].0@ == k);
                        assert(a2 != i);
                    }
                    if has_key(before, k) && k != key@ {
                        let b = choose|b: int| 0 <= b < before.len() && (#[trigger] before[b]).0@ == k;
                        assert(b != i);
                        let b2 = if b < i { b } else { b - 1 };
                        assert(after[b2] == before[b]);
                    }
                }
                assert forall|k: Seq<char>| #[trigger] has_key(after, k) implies entries_map(after)[k]
                    == entries_map(before)[k] by {
                    let a = index_of(after, k);
                    let a2 = if a < i { a } else { a + 1 };
                    assert(after[a] == before[a2]);
                    lemma_entry_value(after, a);
                    lemma_entry_value(before, a2);
                }
                assert(entries_map(after) =~= entries_map(before).remove(key@));
            },
            None => {
                assert(self@ =~= old(self)@.remove(key@));
            },
        }
    }

    /// Replaces the value of entry `i`, keeping its name.
    pub fn set_value(&mut self, i: usize, value: V)
        requires
            old(self).wf(),
            i < old(self).entries@.len(),
        ensures
            final(self).wf(),
            final(self).entries@.len() == old(self).entries@.len(),
            final(self).entries@[i as int].1 == value,
            forall|j: int| 0 <= j < old(self).entries@.len() ==> (#[trigger] final(self).entries@[j]).0
                == old(self).entries@[j].0,
            forall|j: int|
                0 <= j < old(self).entries@.len() && j != i ==> (#[trigger] final(self).entries@[j])
                    == old(self).entries@[j],
    {
        let key = self.entries[i].0.clone();
        self.entries.set(i, (key, value));
        assert(unique_keys(self.entries@)) by {
            assert forall|a: int, b: int|
                0 <= a < self.entries@.len() && 0 <= b < self.entries@.len() && a != b implies (
            #[trigger] self.entries@[a]).0@ != (#[trigger] self.entries@[b]).0@ by {
                assert(self.entries@[a].0 == old(self).entries@[a].0);
                assert(self.entries@[b].0 == old(self).entries@[b].0);
            }
        }
    }

    /// A copy of the table, given a function that copies values.
    pub fn duplicate<F: Fn(&V) -> V>(&self, f: F) -> (r: Self)
        requires
            self.wf(),
            forall|v: &V| #[trigger] f.requires((v,)),
            forall|v: &V, c: V| f.ensures((v,), c) ==> c == *v,
        ensures
            r.wf(),
            r.entries@ == self.entries@,
            r@ == self@,
    {
        let mut out: Vec<(String, V)> = Vec::new();
        let mut i: usize = 0;
        while i < self.entries.len()
            invariant
                i <= self.entries@.len(),
                out@.len() == i,
                forall|v: &V| #[trigger] f.requires((v,)),
                forall|v: &V, c: V| f.ensures((v,), c) ==> c == *v,
                forall|j: int| 0 <= j < i ==> out@[j] == self.entries@[j],
            decreases self.entries@.len() - i,
        {
            let k = self.entries[i].0.clone();
            let v = f(&self.entries[i].1);
            out.push((k, v));
            i = i + 1;
        }
        assert(out@ =~= self.entries@);
        Table { entries: out }
    }

    pub fn insert(&mut self, key: String, value: V)
        requires
            old(self).wf(),
        ensures
            final(self).wf(),
            final(self)@ == old(self)@.insert(key@, value),
    {
        self.remove(key.as_str());
        let ghost before = self.entries@;
        let ghost k = key@;
        assert(!self@.contains_key(k));
        assert(!has_key(before, k)) by {
            assert(self@.dom().contains(k) == has_key(before, k));
        }
        self.entries.push((key, value));
        let ghost after = self.entries@;
        assert(after =~= before.push((after.last().0, value)));
        assert(unique_keys(after)) by {
            assert forall|a: int, b: int|
                0 <= a < after.len() && 0 <= b < after.len() && a != b implies (#[trigger] after[a]).0@
                != (#[trigger] after[b]).0@ by {
                if a == before.len() {
                    assert(!has_key(before, k));
                    assert(after[b] == before[b]);
                } else if b == before.len() {
                    assert(!has_key(before, k));
                    assert(after[a] == before[a]);
                } else {
                    assert(after[a] == before[a]);
                    assert(after[b] == before[b]);
                }
            }
        }
        assert forall|q: Seq<char>| #[trigger] has_key(after, q) <==> has_key(before, q) || q == k by {
            if has_key(before, q) {
                let b = choose|b: int| 0 <= b < before.len() && (#[trigger] before[b]).0@ == q;
                assert(after[b] == before[b]);
            }
            if q == k {
                assert(after[before.len() as int].0@ == q);
            }
            if has_key(after, q) && q != k {
                let a = choose|a: int| 0 <= a < after.len() && (#[trigger] after[a]).0@ == q;
                assert(a != before.len());
                assert(after[a] == before[a]);
            }
        }
        assert forall|q: Seq<char>| #[trigger] has_key(after, q) implies entries_map(after)[q] == (
        if q == k {
            value
        } else {
            entries_map(before)[q]
        }) by {
            let a = index_of(after, q);
            lemma_entry_value(after, a);
            if q != k {
                assert(a != before.len());
                assert(after[a] == before[a]);
                lemma_entry_value(before, a);
            } else {
                lemma_entry_value(after, before.len() as int);
            }
        }
        assert(entries_map(after) =~= entries_map(before).insert(k, value));
    }
}

} // verus!
