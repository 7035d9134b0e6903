//! A mapping from string keys to at-most-once assigned values.
//!
//! This is the sequential heart of the service's version cache: a key is
//! either absent or holds a value that was assigned exactly once and never
//! changes afterwards. The surrounding application shares one such map among
//! concurrent requests and serialises first assignments through a
//! single-flight cell, so every state it can observe is a state of this
//! model.

use vstd::prelude::*;

verus! {

/// A map from string keys to single-assignment values.
pub struct CacheMap<V> {
    pub entries: Vec<(String, V)>,
}

impl<V> CacheMap<V> {
    /// Well-formed: no key occurs twice.
    pub open spec fn wf(&self) -> bool {
        forall|i: int, j: int|
            0 <= i < j < self.entries@.len() ==> self.entries@[i].0@ != self.entries@[j].0@
    }

    /// Whether `k` holds a value.
    pub open spec fn spec_contains(&self, k: Seq<char>) -> bool {
        exists|i: int| 0 <= i < self.entries@.len() && self.entries@[i].0@ == k
    }

    /// The index of the entry holding `k`.
    pub open spec fn key_index(&self, k: Seq<char>) -> int {
        choose|i: int| 0 <= i < self.entries@.len() && self.entries@[i].0@ == k
    }

    /// The value assigned to `k`.
    pub open spec fn spec_value(&self, k: Seq<char>) -> V {
        self.entries@[self.key_index(k)].1
    }

    /// In a well-formed map, the entry of the key at index `i` is found at
    /// index `i`.
    pub proof fn lemma_key_index_of(&self, i: int)
        requires
            self.wf(),
            0 <= i < self.entries@.len(),
        ensures
            self.key_index(self.entries@[i].0@) == i,
            self.spec_contains(self.entries@[i].0@),
            self.spec_value(self.entries@[i].0@) == self.entries@[i].1,
    {
        let k = self.entries@[i].0@;
        assert(self.spec_contains(k));
        let j = self.key_index(k);
        assert(0 <= j < self.entries@.len() && self.entries@[j].0@ == k);
    }

    /// An empty map.
    pub fn new() -> (r: CacheMap<V>)
        ensures
            r.wf(),
            forall|k: Seq<char>| !r.spec_contains(k),
            r.entries@.len() == 0,
    {
        CacheMap { entries: Vec::new() }
    }

    /// The index of the entry holding `key`, if the key holds a value.
    fn find_index(&self, key: &String) -> (r: Option<usize>)
        requires
            self.wf(),
        ensures
            match r {
                Some(i) => i < self.entries@.len() && self.entries@[i as int].0@ == key@
                    && self.key_index(key@) == i && self.spec_contains(key@),
                None => !self.spec_contains(key@),
            },
    {
        let n = self.entries.len();
        let mut i: usize = 0;
        while i < n
            invariant
                n == self.entries@.len(),
                i <= n,
                self.wf(),
                forall|j: int| 0 <= j < i ==> self.entries@[j].0@ != key@,
            decreases n - i,
        {
            if self.entries[i].0 == *key {
                proof {
                    self.lemma_key_index_of(i as int);
                }
                return Some(i);
            }
            i = i + 1;
        }
        None
    }

    /// The value assigned to `key`, if the key holds one.
    pub fn get<'a>(&'a self, key: &String) -> (r: Option<&'a V>)
        requires
            self.wf(),
        ensures
            match r {
                Some(v) => self.spec_contains(key@) && *v == self.spec_value(key@),
                None => !self.spec_contains(key@),
            },
    {
        match self.find_index(key) {
            Some(i) => Some(&self.entries[i].1),
            None => None,
        }
    }

    /// Assigns `v` to `key`. A key can be assigned only once; a caller that
    /// finds the key present reuses the held value instead.
    pub fn fill(&mut self, key: &String, v: V)
        requires
            old(self).wf(),
            !old(self).spec_contains(key@),
        ensures
            final(self).wf(),
            final(self).spec_contains(key@),
            final(self).spec_value(key@) == v,
            forall|k: Seq<char>|
                k != key@ ==> final(self).spec_contains(k) == old(self).spec_contains(k),
            forall|k: Seq<char>|
                k != key@ && old(self).spec_contains(k) ==> final(self).spec_value(k) == old(
                    self,
                ).spec_value(k),
            final(self).entries@.len() == old(self).entries@.len() + 1,
            final(self).entries@ == old(self).entries@.push((*key, v)),
    {
        let ghost n = self.entries@.len() as int;
        self.entries.push((key.clone(), v));
        proof {
            assert(self.entries@[n].0@ == key@);
            assert forall|i: int, j: int|
                0 <= i < j < self.entries@.len() implies self.entries@[i].0@
                != self.entries@[j].0@ by {
                if j < n {
                } else {
                    assert(self.entries@[j].0@ == key@);
                    if self.entries@[i].0@ == key@ {
                        assert(old(self).spec_contains(key@));
                    }
                }
            }
            self.lemma_key_index_of(n);
            assert forall|k: Seq<char>| k != key@ implies final(self).spec_contains(k) == old(
                self,
            ).spec_contains(k) by {
                if old(self).spec_contains(k) {
                    let i = old(self).key_index(k);
                    assert(self.entries@[i].0@ == k);
                }
                if self.spec_contains(k) {
                    let i = self.key_index(k);
                    assert(i < n);
                    assert(old(self).entries@[i].0@ == k);
                }
            }
            assert forall|k: Seq<char>|
                k != key@ && old(self).spec_contains(k) implies final(self).spec_value(k) == old(
                self,
            ).spec_value(k) by {
                let i = old(self).key_index(k);
                assert(old(self).entries@[i].0@ == k);
                assert(self.entries@[i].0@ == k);
                self.lemma_key_index_of(i);
                old(self).lemma_key_index_of(i);
            }
            assert(final(self).entries@ =~= old(self).entries@.push((*key, v)));
        }
    }
}


impl<V> CacheMap<V> {
    /// Two maps with the same keys in the same order agree on membership and
    /// entry positions.
    pub proof fn lemma_same_keys(&self, other: &CacheMap<V>)
        requires
            self.wf(),
            self.entries@.len() == other.entries@.len(),
            forall|i: int|
                0 <= i < self.entries@.len() ==> self.entries@[i].0@ == other.entries@[i].0@,
        ensures
            other.wf(),
            forall|k: Seq<char>| self.spec_contains(k) == other.spec_contains(k),
            forall|k: Seq<char>|
                self.spec_contains(k) ==> self.key_index(k) == other.key_index(k),
    {
        assert forall|k: Seq<char>| self.spec_contains(k) == other.spec_contains(k) by {
            if self.spec_contains(k) {
                let i = self.key_index(k);
                assert(other.entries@[i].0@ == k);
            }
            if other.spec_contains(k) {
                let i = other.key_index(k);
                assert(0 <= i < other.entries@.len() && other.entries@[i].0@ == k);
                assert(self.entries@[i].0@ == k);
            }
        }
        assert forall|k: Seq<char>|
            self.spec_contains(k) implies self.key_index(k) == other.key_index(k) by {
            let i = self.key_index(k);
            let j = other.key_index(k);
            assert(0 <= i < self.entries@.len() && self.entries@[i].0@ == k);
            assert(other.entries@[i].0@ == k);
            assert(0 <= j < other.entries@.len() && other.entries@[j].0@ == k);
            assert(self.entries@[j].0@ == k);
        }
    }
}

impl CacheMap<CacheMap<()>> {
    /// Assigns `()` to `version` inside the inner map held at `lang`. The
    /// outer assignment itself is untouched: keys, order and every other
    /// value stay as they were.
    pub fn fill_inner(&mut self, lang: &String, version: &String)
        requires
            old(self).wf(),
            old(self).spec_contains(lang@),
            old(self).spec_value(lang@).wf(),
            !old(self).spec_value(lang@).spec_contains(version@),
        ensures
            final(self).wf(),
            forall|l: Seq<char>| final(self).spec_contains(l) == old(self).spec_contains(l),
            final(self).spec_value(lang@).wf(),
            final(self).spec_value(lang@).spec_contains(version@),
            final(self).spec_value(lang@).spec_value(version@) == (),
            forall|v: Seq<char>|
                v != version@ ==> final(self).spec_value(lang@).spec_contains(v) == old(
                    self,
                ).spec_value(lang@).spec_contains(v),
            forall|l: Seq<char>|
                l != lang@ && old(self).spec_contains(l) ==> final(self).spec_value(l) == old(
                    self,
                ).spec_value(l),
    {
        let i = match self.find_index(lang) {
            Some(i) => i,
            None => {
                proof {
                    assert(false);
                }
                0
            },
        };
        let ghost before = *self;
        let (k, mut inner) = self.entries.remove(i);
        proof {
            before.lemma_key_index_of(i as int);
            assert(inner == before.spec_value(lang@));
        }
        inner.fill(version, ());
        let ghost inner2 = inner;
        self.entries.insert(i, (k, inner));
        proof {
            assert(self.entries@ =~= before.entries@.update(i as int, (k, inner2)));
            assert(forall|j: int|
                0 <= j < self.entries@.len() ==> self.entries@[j].0@ == before.entries@[j].0@);
            before.lemma_same_keys(&*self);
            assert(final(self).key_index(lang@) == i);
            assert forall|l: Seq<char>|
                l != lang@ && old(self).spec_contains(l) implies final(self).spec_value(l) == old(
                self,
            ).spec_value(l) by {
                let j = before.key_index(l);
                assert(before.entries@[j].0@ == l);
                assert(j != i);
            }
        }
    }
}

} // verus!
