//! A map that keeps its entries in the order in which their keys first came.
use crate::text::same_text;
use vstd::prelude::*;

verus! {

/// A key of an [`AssocMap`]: two keys are the same when their views are equal.
pub trait MapKey: View + Sized {
    /// Whether two keys are the same.
    fn same_key(&self, other: &Self) -> (r: bool)
        ensures
            r == (self@ == other@),
    ;
}

impl MapKey for String {
    fn same_key(&self, other: &String) -> (r: bool) {
        same_text(self.as_str(), other.as_str())
    }
}

/// A map from keys to values. No key occurs twice.
#[derive(Clone, Debug)]
pub struct AssocMap<K: MapKey, V> {
    pub entries: Vec<(K, V)>,
}

/// A map whose keys are texts.
pub type TextMap<V> = AssocMap<String, V>;

/// The keys of a list of entries, in order.
pub open spec fn keys_of<K: MapKey, V>(entries: Seq<(K, V)>) -> Seq<K::V> {
    entries.map_values(|e: (K, V)| e.0@)
}

impl<K: MapKey, V> AssocMap<K, V> {
    /// The keys, in the order in which they first came.
    pub open spec fn keys(self) -> Seq<K::V> {
        keys_of(self.entries@)
    }

    /// No key occurs twice.
    pub open spec fn wf(self) -> bool {
        self.keys().no_duplicates()
    }

    /// What the map holds.
    pub open spec fn view(self) -> Map<K::V, V> {
        Map::new(
            |k: K::V| self.keys().contains(k),
            |k: K::V| self.entries@[self.keys().index_of(k)].1,
        )
    }

    /// A map without entries.
    pub fn new() -> (r: Self)
        ensures
            r.wf(),
            r.entries@ == Seq::<(K, V)>::empty(),
            r.view() == Map::<K::V, V>::empty(),
    {
        let r = AssocMap { entries: Vec::new() };
        assert(r.keys() =~= Seq::<K::V>::empty());
        assert(r.view() =~= Map::<K::V, V>::empty());
        r
    }

    /// The number of entries.
    pub fn len(&self) -> (r: usize)
        ensures
            r == self.entries@.len(),
    {
        self.entries.len()
    }

    /// An entry is found under its key.
    pub proof fn lemma_entry(self, i: int)
        requires
            self.wf(),
            0 <= i < self.entries@.len(),
        ensures
            self.view().contains_key(self.entries@[i].0@),
            self.view()[self.entries@[i].0@] == self.entries@[i].1,
    {
        let k = self.entries@[i].0@;
        assert(self.keys()[i] == k);
        let j = self.keys().index_of(k);
        assert(self.keys()[j] == k && 0 <= j < self.keys().len());
    }

    /// Where a key stands.
    pub fn position(&self, key: &K) -> (r: Option<usize>)
        ensures
            match r {
                Some(i) => i < self.entries@.len() && self.keys()[i as int] == key@,
                None => !self.keys().contains(key@),
            },
    {
        let mut i: usize = 0;
        while i < self.entries.len()
            invariant
                i <= self.entries@.len(),
                forall|j: int| 0 <= j < i ==> #[trigger] self.keys()[j] != key@,
            decreases self.entries@.len() - i,
        {
            if self.entries[i].0.same_key(key) {
                return Some(i);
            }
            assert(self.keys()[i as int] == self.entries@[i as int].0@);
            i = i + 1;
        }
        None
    }

    /// The value under a key.
    pub fn get(&self, key: &K) -> (r: Option<&V>)
        requires
            self.wf(),
        ensures
            match r {
                Some(v) => self.view().contains_key(key@) && *v == self.view()[key@],
                None => !self.view().contains_key(key@),
            },
    {
        match self.position(key) {
            Some(i) => {
                proof {
                    self.lemma_entry(i as int);
                }
                Some(&self.entries[i].1)
            },
            None => None,
        }
    }

    /// Puts a value under a key and hands back the value that it replaces. A key
    /// that was there keeps its place; a new one comes last.
    pub fn insert(&mut self, key: K, value: V) -> (r: Option<V>)
        requires
            old(self).wf(),
        ensures
            final(self).wf(),
            final(self).view() == old(self).view().insert(key@, value),
            final(self).keys() == if old(self).keys().contains(key@) {
                old(self).keys()
            } else {
                old(self).keys().push(key@)
            },
            match r {
                Some(v) => old(self).view().contains_key(key@) && v == old(self).view()[key@],
                None => !old(self).view().contains_key(key@),
            },
    {
        let ghost before = *self;
        match self.position(&key) {
            Some(i) => {
                let (kept, replaced) = self.entries.remove(i);
                let ghost kept_key = kept@;
                self.entries.insert(i, (kept, value));
                proof {
                    before.lemma_entry(i as int);
                    assert(self.entries@ =~= before.entries@.update(i as int, (kept, value)));
                    assert(self.keys() =~= before.keys());
                    assert forall|k: K::V| #[trigger] self.keys().contains(k) implies self.view()[k]
                        == before.view().insert(key@, value)[k] by {
                        let j = self.keys().index_of(k);
                        assert(self.keys()[j] == k);
                        before.lemma_entry(j);
                        self.lemma_entry(j);
                        self.lemma_entry(i as int);
                    }
                    assert(self.view() =~= before.view().insert(key@, value));
                }
                Some(replaced)
            },
            None => {
                let ghost k0 = key@;
                self.entries.push((key, value));
                proof {
                    assert(self.keys() =~= before.keys().push(k0));
                    assert forall|k: K::V| #[trigger] self.keys().contains(k) implies self.view()[k]
                        == before.view().insert(k0, value)[k] by {
                        let j = self.keys().index_of(k);
                        assert(self.keys()[j] == k);
                        self.lemma_entry(j);
                        if j < before.entries@.len() {
                            before.lemma_entry(j);
                            assert(before.keys()[j] == k);
                        }
                    }
                    assert forall|k: K::V| self.keys().contains(k) == before.view().insert(
                        k0,
                        value,
                    ).contains_key(k) by {
                        if before.keys().contains(k) {
                            let j = before.keys().index_of(k);
                            assert(self.keys()[j] == k);
                        }
                        assert(self.keys()[before.entries@.len() as int] == k0);
                        if self.keys().contains(k) {
                            let j = self.keys().index_of(k);
                            assert(self.keys()[j] == k);
                            if j < before.entries@.len() {
                                assert(before.keys()[j] == k);
                            }
                        }
                    }
                    assert(self.view() =~= before.view().insert(k0, value));
                }
                None
            },
        }
    }

    /// Takes a key out and hands back its value. The other keys keep their order.
    pub fn remove(&mut self, key: &K) -> (r: Option<V>)
        requires
            old(self).wf(),
        ensures
            final(self).wf(),
            final(self).view() == old(self).view().remove(key@),
            match r {
                Some(v) => {
                    &&& old(self).view().contains_key(key@)
                    &&& v == old(self).view()[key@]
                    &&& final(self).keys() == old(self).keys().remove(
                        old(self).keys().index_of(key@),
                    )
                },
                None => {
                    &&& !old(self).view().contains_key(key@)
                    &&& *final(self) == *old(self)
                },
            },
    {
        let ghost before = *self;
        match self.position(key) {
            Some(i) => {
                let (_, value) = self.entries.remove(i);
                proof {
                    before.lemma_entry(i as int);
                    assert(before.keys().index_of(key@) == i);
                    assert(self.keys() =~= before.keys().remove(i as int));
                    assert forall|k: K::V| self.keys().contains(k) == before.view().remove(
                        key@,
                    ).contains_key(k) by {
                        if before.keys().contains(k) && k != key@ {
                            let j = before.keys().index_of(k);
                            if j < i {
                                assert(self.keys()[j] == k);
                            } else {
                                assert(self.keys()[j - 1] == k);
                            }
                        }
                        if self.keys().contains(k) {
                            let j = self.keys().index_of(k);
                            assert(self.keys()[j] == k);
                            if j < i {
                                assert(before.keys()[j] == k);
                            } else {
                                assert(before.keys()[j + 1] == k);
                            }
                        }
                    }
                    assert forall|k: K::V| #[trigger] self.keys().contains(k) implies self.view()[k]
                        == before.view()[k] by {
                        let j = self.keys().index_of(k);
                        assert(self.keys()[j] == k);
                        self.lemma_entry(j);
                        if j < i {
                            before.lemma_entry(j);
                        } else {
                            before.lemma_entry(j + 1);
                        }
                    }
                    assert(self.view() =~= before.view().remove(key@));
                }
                Some(value)
            },
            None => {
                assert(self.view().remove(key@) =~= self.view());
                None
            },
        }
    }

    /// Takes every entry out and hands back the values, in order.
    pub fn drain(&mut self) -> (r: Vec<V>)
        ensures
            final(self).wf(),
            final(self).entries@ == Seq::<(K, V)>::empty(),
            final(self).view() == Map::<K::V, V>::empty(),
            r@ == old(self).entries@.map_values(|e: (K, V)| e.1),
    {
        let ghost before = self.entries@;
        let mut r: Vec<V> = Vec::new();
        while self.entries.len() > 0
            invariant
                r@.len() + self.entries@.len() == before.len(),
                self.entries@ == before.skip(r@.len() as int),
                r@ == before.take(r@.len() as int).map_values(|e: (K, V)| e.1),
            decreases self.entries@.len(),
        {
            let (_, value) = self.entries.remove(0);
            r.push(value);
            assert(before.take(r@.len() as int) == before.take(r@.len() - 1).push(
                before[r@.len() - 1],
            ));
        }
        proof {
            assert(before.take(r@.len() as int) == before);
            assert(self.keys() =~= Seq::<K::V>::empty());
            assert(self.view() =~= Map::<K::V, V>::empty());
        }
        r
    }
}

impl<V> AssocMap<String, V> {
    /// The value under a text.
    pub fn get_text(&self, key: &str) -> (r: Option<&V>)
        requires
            self.wf(),
        ensures
            match r {
                Some(v) => self.view().contains_key(key@) && *v == self.view()[key@],
                None => !self.view().contains_key(key@),
            },
    {
        self.get(&key.to_owned())
    }
}

} // verus!
