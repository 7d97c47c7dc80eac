//! A map keyed by strings, kept as a list of distinct keys in insertion order.
use vstd::prelude::*;
use crate::text::str_eq;

verus! {

/// A map from strings to values. Keys are distinct; entries keep the order in which
/// their keys were first inserted.
#[derive(Debug, PartialEq, Eq)]
pub struct StrMap<V> {
    keys: Vec<String>,
    vals: Vec<V>,
}

impl<V> StrMap<V> {
    /// The keys, in entry order.
    pub closed spec fn key_seq(&self) -> Seq<Seq<char>> {
        self.keys@.map_values(|k: String| k@)
    }

    /// The values, in entry order.
    pub closed spec fn val_seq(&self) -> Seq<V> {
        self.vals@
    }

    /// Keys are distinct and each has a value.
    #[verifier::type_invariant]
    pub closed spec fn wf(&self) -> bool {
        &&& self.keys@.len() == self.vals@.len()
        &&& self.key_seq().no_duplicates()
    }

    /// Entry order facts that every map satisfies (call `use_type_invariant` first).
    pub proof fn lemma_entries(&self)
        requires
            self.wf(),
        ensures
            self.key_seq().len() == self.val_seq().len(),
            self.key_seq().no_duplicates(),
            forall|i: int|
                0 <= i < self.key_seq().len() ==> #[trigger] self@.contains_key(self.key_seq()[i])
                    && self@[self.key_seq()[i]] == self.val_seq()[i],
            forall|k: Seq<char>| #[trigger]
                self@.contains_key(k) ==> self.key_seq().contains(k),
            self@.dom().finite(),
            self@.dom().len() == self.key_seq().len(),
    {
        let ks = self.key_seq();
        assert forall|i: int| 0 <= i < ks.len() implies #[trigger] self@.contains_key(ks[i])
            && self@[ks[i]] == self.val_seq()[i] by {
            assert(ks.contains(ks[i]));
            let j = ks.index_of(ks[i]);
            assert(ks[j] == ks[i]);
        }
        assert(self@.dom() =~= ks.to_set());
        ks.unique_seq_to_set();
    }

    /// The number of entries.
    pub fn len(&self) -> (res: usize)
        ensures
            res == self@.dom().len(),
            res == self.key_seq().len(),
    {
        proof {
            use_type_invariant(self);
            self.lemma_entries();
        }
        self.keys.len()
    }

    /// Whether the map is empty.
    pub fn is_empty(&self) -> (res: bool)
        ensures
            res == (self@.dom().len() == 0),
    {
        self.len() == 0
    }

    /// The empty map.
    pub fn new() -> (res: Self)
        ensures
            res@ == Map::<Seq<char>, V>::empty(),
            res.key_seq().len() == 0,
    {
        let res = StrMap { keys: Vec::new(), vals: Vec::new() };
        assert(res.key_seq() =~= Seq::<Seq<char>>::empty());
        assert(res@ =~= Map::<Seq<char>, V>::empty());
        res
    }

    /// Position of the entry with key `k`.
    pub fn position(&self, k: &str) -> (res: Option<usize>)
        ensures
            match res {
                Some(i) => i < self.key_seq().len() && self.key_seq()[i as int] == k@,
                None => !self.key_seq().contains(k@),
            },
            res is Some <==> self@.contains_key(k@),
    {
        proof {
            use_type_invariant(self);
        }
        let mut i: usize = 0;
        while i < self.keys.len()
            invariant
                i <= self.keys@.len(),
                forall|j: int| 0 <= j < i ==> self.key_seq()[j] != k@,
            decreases self.keys@.len() - i,
        {
            if str_eq(self.keys[i].as_str(), k) {
                assert(self.key_seq()[i as int] == k@);
                assert(self.key_seq().contains(k@));
                assert(self@.contains_key(k@));
                return Some(i);
            }
            i = i + 1;
        }
        assert(!self.key_seq().contains(k@));
        assert(!self@.contains_key(k@));
        None
    }

    /// Whether `k` has an entry.
    pub fn contains_key(&self, k: &str) -> (res: bool)
        ensures
            res == self@.contains_key(k@),
    {
        self.position(k).is_some()
    }

    /// The value stored under `k`.
    pub fn get(&self, k: &str) -> (res: Option<&V>)
        ensures
            match res {
                Some(v) => self@.contains_key(k@) && *v == self@[k@],
                None => !self@.contains_key(k@),
            },
    {
        proof {
            use_type_invariant(self);
            self.lemma_entries();
        }
        match self.position(k) {
            Some(i) => Some(&self.vals[i]),
            None => None,
        }
    }

    /// The key of entry `i`.
    pub fn key_at(&self, i: usize) -> (res: &String)
        requires
            i < self.key_seq().len(),
        ensures
            res@ == self.key_seq()[i as int],
    {
        proof {
            use_type_invariant(self);
        }
        &self.keys[i]
    }

    /// The value of entry `i`.
    pub fn value_at(&self, i: usize) -> (res: &V)
        requires
            i < self.key_seq().len(),
        ensures
            *res == self.val_seq()[i as int],
    {
        proof {
            use_type_invariant(self);
        }
        &self.vals[i]
    }

    /// Stores `v` under `k`, replacing an earlier value in place.
    pub fn insert(&mut self, k: String, v: V)
        ensures
            final(self)@ == old(self)@.insert(k@, v),
            old(self)@.contains_key(k@) ==> final(self).key_seq() == old(self).key_seq(),
            !old(self)@.contains_key(k@) ==> final(self).key_seq() == old(self).key_seq().push(
                k@,
            ),
    {
        proof {
            use_type_invariant(&*self);
            self.lemma_entries();
        }
        match self.position(k.as_str()) {
            Some(i) => {
                let ghost old_keys = self.key_seq();
                let mut tmp = StrMap::new();
                std::mem::swap(&mut tmp, self);
                proof {
                    use_type_invariant(&tmp);
                }
                let StrMap { keys, mut vals } = tmp;
                vals.set(i, v);
                *self = StrMap { keys, vals };
                proof {
                    assert(self.key_seq() == old_keys);
                    assert(self@ =~= old(self)@.insert(k@, v)) by {
                        let ks = self.key_seq();
                        assert forall|key: Seq<char>| #[trigger] self@.contains_key(key)
                            implies self@[key] == old(self)@.insert(k@, v)[key] by {
                            let j = ks.index_of(key);
                            if key == k@ {
                                assert(ks[i as int] == k@);
                            } else {
                                assert(old(self).key_seq()[j] == key);
                            }
                        }
                    }
                }
            },
            None => {
                let ghost old_keys = self.key_seq();
                let mut tmp = StrMap::new();
                std::mem::swap(&mut tmp, self);
                proof {
                    use_type_invariant(&tmp);
                }
                let StrMap { mut keys, mut vals } = tmp;
                keys.push(k);
                vals.push(v);
                proof {
                    assert(keys@.map_values(|k: String| k@) =~= old_keys.push(k@));
                }
                *self = StrMap { keys, vals };
                proof {
                    assert(self.key_seq() =~= old_keys.push(k@));
                    assert(self@ =~= old(self)@.insert(k@, v)) by {
                        let ks = self.key_seq();
                        assert forall|key: Seq<char>| #[trigger] self@.contains_key(key)
                            implies self@[key] == old(self)@.insert(k@, v)[key] by {
                            let j = ks.index_of(key);
                            if key == k@ {
                                assert(ks[old_keys.len() as int] == k@);
                            } else {
                                assert(ks[j] == key);
                                assert(j < old_keys.len());
                                assert(old_keys.contains(key));
                                let jo = old_keys.index_of(key);
                                assert(ks[jo] == key);
                            }
                        }
                        assert forall|key: Seq<char>| old(self)@.insert(k@, v).contains_key(key)
                            implies #[trigger] self@.contains_key(key) by {
                            if key != k@ {
                                let jo = old_keys.index_of(key);
                                assert(ks[jo] == key);
                            } else {
                                assert(ks[old_keys.len() as int] == k@);
                            }
                        }
                    }
                }
            },
        }
    }

    /// Removes the entry under `k`, returning its value.
    pub fn remove(&mut self, k: &str) -> (res: Option<V>)
        ensures
            final(self)@ == old(self)@.remove(k@),
            match res {
                Some(v) => old(self)@.contains_key(k@) && v == old(self)@[k@],
                None => !old(self)@.contains_key(k@),
            },
    {
        proof {
            use_type_invariant(&*self);
            self.lemma_entries();
        }
        match self.position(k) {
            Some(i) => {
                let ghost old_keys = self.key_seq();
                let mut tmp = StrMap::new();
                std::mem::swap(&mut tmp, self);
                proof {
                    use_type_invariant(&tmp);
                }
                let StrMap { mut keys, mut vals } = tmp;
                let _ = keys.remove(i);
                let v = vals.remove(i);
                proof {
                    assert(keys@.map_values(|k: String| k@) =~= old_keys.remove(i as int));
                    assert(old_keys.remove(i as int).no_duplicates()) by {
                        assert forall|a: int, b: int|
                            0 <= a < old_keys.remove(i as int).len() && 0 <= b
                                < old_keys.remove(i as int).len() && a != b implies old_keys.remove(
                            i as int,
                        )[a] != old_keys.remove(i as int)[b] by {
                            let aa = if a < i {
                                a
                            } else {
                                a + 1
                            };
                            let bb = if b < i {
                                b
                            } else {
                                b + 1
                            };
                            assert(old_keys.remove(i as int)[a] == old_keys[aa]);
                            assert(old_keys.remove(i as int)[b] == old_keys[bb]);
                        }
                    }
                }
                *self = StrMap { keys, vals };
                proof {
                    assert(self.key_seq() =~= old_keys.remove(i as int));
                    let ks = self.key_seq();
                    assert forall|key: Seq<char>| #[trigger] self@.contains_key(key) implies self@[key]
                        == old(self)@[key] && key != k@ by {
                        let j = ks.index_of(key);
                        let jo = if j < i {
                            j
                        } else {
                            j + 1
                        };
                        assert(old_keys[jo] == key);
                        assert(old(self).val_seq()[jo] == self.val_seq()[j]);
                        assert(old(self)@[key] == old(self).val_seq()[old_keys.index_of(key)]);
                    }
                    assert forall|key: Seq<char>| old(self)@.remove(k@).contains_key(key)
                        implies #[trigger] self@.contains_key(key) by {
                        let jo = old_keys.index_of(key);
                        assert(jo != i);
                        if jo < i {
                            assert(ks[jo] == key);
                        } else {
                            assert(ks[jo - 1] == key);
                        }
                    }
                    assert(self@ =~= old(self)@.remove(k@));
                }
                Some(v)
            },
            None => {
                assert(old(self)@.remove(k@) =~= old(self)@);
                None
            },
        }
    }
}

impl<V> View for StrMap<V> {
    type V = Map<Seq<char>, V>;

    closed spec fn view(&self) -> Map<Seq<char>, V> {
        Map::new(
            |k: Seq<char>| self.key_seq().contains(k),
            |k: Seq<char>| self.vals@[self.key_seq().index_of(k)],
        )
    }
}

/// A set of strings, kept in insertion order.
#[derive(Debug, PartialEq, Eq)]
pub struct StrSet {
    items: StrMap<()>,
}

impl View for StrSet {
    type V = Set<Seq<char>>;

    closed spec fn view(&self) -> Set<Seq<char>> {
        self.items@.dom()
    }
}

impl StrSet {
    /// The members, in insertion order.
    pub closed spec fn elems(&self) -> Seq<Seq<char>> {
        self.items.key_seq()
    }

    /// Membership in terms of the ordered members.
    pub proof fn lemma_elems(&self)
        requires
            self.inner_wf(),
        ensures
            self.elems().no_duplicates(),
            forall|i: int| 0 <= i < self.elems().len() ==> #[trigger] self@.contains(self.elems()[i]),
            forall|k: Seq<char>| #[trigger] self@.contains(k) ==> self.elems().contains(k),
            self@.finite(),
            self@.len() == self.elems().len(),
    {
        self.items.lemma_entries();
    }

    /// Invariant of the underlying map.
    #[verifier::type_invariant]
    pub closed spec fn inner_wf(&self) -> bool {
        self.items.wf()
    }

    pub fn new() -> (res: Self)
        ensures
            res@ == Set::<Seq<char>>::empty(),
            res.elems().len() == 0,
    {
        let items = StrMap::new();
        proof {
            use_type_invariant(&items);
        }
        let res = StrSet { items };
        assert(res@ =~= Set::<Seq<char>>::empty());
        res
    }

    pub fn len(&self) -> (res: usize)
        ensures
            res == self@.len(),
            res == self.elems().len(),
    {
        proof {
            use_type_invariant(self);
            self.lemma_elems();
        }
        self.items.len()
    }

    pub fn is_empty(&self) -> (res: bool)
        ensures
            res == (self@.len() == 0),
    {
        self.items.is_empty()
    }

    pub fn contains(&self, k: &str) -> (res: bool)
        ensures
            res == self@.contains(k@),
    {
        self.items.contains_key(k)
    }

    /// Adds `k`; returns whether it was absent.
    pub fn insert(&mut self, k: String) -> (res: bool)
        ensures
            final(self)@ == old(self)@.insert(k@),
            res == !old(self)@.contains(k@),
            old(self)@.contains(k@) ==> final(self).elems() == old(self).elems(),
            !old(self)@.contains(k@) ==> final(self).elems() == old(self).elems().push(k@),
    {
        proof {
            use_type_invariant(&*self);
        }
        let absent = !self.items.contains_key(k.as_str());
        let mut tmp = StrSet::new();
        std::mem::swap(&mut tmp, self);
        let StrSet { mut items } = tmp;
        items.insert(k, ());
        proof {
            use_type_invariant(&items);
        }
        *self = StrSet { items };
        assert(self@ =~= old(self)@.insert(k@));
        absent
    }

    /// Removes `k`; returns whether it was present.
    pub fn remove(&mut self, k: &str) -> (res: bool)
        ensures
            final(self)@ == old(self)@.remove(k@),
            res == old(self)@.contains(k@),
    {
        let mut tmp = StrSet::new();
        std::mem::swap(&mut tmp, self);
        let StrSet { mut items } = tmp;
        let r = items.remove(k);
        proof {
            use_type_invariant(&items);
        }
        *self = StrSet { items };
        assert(self@ =~= old(self)@.remove(k@));
        r.is_some()
    }

    /// The member at position `i`.
    pub fn at(&self, i: usize) -> (res: &String)
        requires
            i < self.elems().len(),
        ensures
            res@ == self.elems()[i as int],
    {
        self.items.key_at(i)
    }
}

} // verus!
