//! A map keyed by numeric ids, kept as a list of distinct keys in insertion order.
use vstd::prelude::*;

verus! {

/// A map from `u64` ids to values. Keys are distinct; entries keep the order in which
/// their keys were first inserted.
#[derive(Debug, PartialEq, Eq)]
pub struct IdMap<V> {
    keys: Vec<u64>,
    vals: Vec<V>,
}

impl<V> IdMap<V> {
    /// The keys, in entry order.
    pub closed spec fn key_seq(&self) -> Seq<u64> {
        self.keys@
    }

    /// The values, in entry order.
    pub closed spec fn val_seq(&self) -> Seq<V> {
        self.vals@
    }

    /// Keys are distinct and each has a value.
    #[verifier::type_invariant]
    pub closed spec fn wf(&self) -> bool {
        &&& self.keys@.len() == self.vals@.len()
        &&& self.key_seq().no_duplicates()
    }

    /// Entry order facts that every map satisfies (call `use_type_invariant` first).
    pub proof fn lemma_entries(&self)
        requires
            self.wf(),
        ensures
            self.key_seq().len() == self.val_seq().len(),
            self.key_seq().no_duplicates(),
            forall|i: int|
                0 <= i < self.key_seq().len() ==> #[trigger] self@.contains_key(self.key_seq()[i])
                    && self@[self.key_seq()[i]] == self.val_seq()[i],
            forall|k: u64| #[trigger]
                self@.contains_key(k) ==> self.key_seq().contains(k),
            self@.dom().finite(),
            self@.dom().len() == self.key_seq().len(),
    {
        let ks = self.key_seq();
        assert forall|i: int| 0 <= i < ks.len() implies #[trigger] self@.contains_key(ks[i])
            && self@[ks[i]] == self.val_seq()[i] by {
            assert(ks.contains(ks[i]));
            let j = ks.index_of(ks[i]);
            assert(ks[j] == ks[i]);
        }
        assert(self@.dom() =~= ks.to_set());
        ks.unique_seq_to_set();
    }

    /// The number of entries.
    pub fn len(&self) -> (res: usize)
        ensures
            res == self@.dom().len(),
            res == self.key_seq().len(),
    {
        proof {
            use_type_invariant(self);
            self.lemma_entries();
        }
        self.keys.len()
    }

    /// Whether the map is empty.
    pub fn is_empty(&self) -> (res: bool)
        ensures
            res == (self@.dom().len() == 0),
    {
        self.len() == 0
    }

    /// The empty map.
    pub fn new() -> (res: Self)
        ensures
            res@ == Map::<u64, V>::empty(),
            res.key_seq().len() == 0,
    {
        let res = IdMap { keys: Vec::new(), vals: Vec::new() };
        assert(res.key_seq() =~= Seq::<u64>::empty());
        assert(res@ =~= Map::<u64, V>::empty());
        res
    }

    /// Position of the entry with key `k`.
    pub fn position(&self, k: &u64) -> (res: Option<usize>)
        ensures
            match res {
                Some(i) => i < self.key_seq().len() && self.key_seq()[i as int] == *k,
                None => !self.key_seq().contains(*k),
            },
            res is Some <==> self@.contains_key(*k),
    {
        proof {
            use_type_invariant(self);
        }
        let mut i: usize = 0;
        while i < self.keys.len()
            invariant
                i <= self.keys@.len(),
                forall|j: int| 0 <= j < i ==> self.key_seq()[j] != *k,
            decreases self.keys@.len() - i,
        {
            if self.keys[i] == *k {
                assert(self.key_seq()[i as int] == *k);
                assert(self.key_seq().contains(*k));
                assert(self@.contains_key(*k));
                return Some(i);
            }
            i = i + 1;
        }
        assert(!self.key_seq().contains(*k));
        assert(!self@.contains_key(*k));
        None
    }

    /// Whether `k` has an entry.
    pub fn contains_key(&self, k: &u64) -> (res: bool)
        ensures
            res == self@.contains_key(*k),
    {
        self.position(k).is_some()
    }

    /// The value stored under `k`.
    pub fn get(&self, k: &u64) -> (res: Option<&V>)
        ensures
            match res {
                Some(v) => self@.contains_key(*k) && *v == self@[*k],
                None => !self@.contains_key(*k),
            },
    {
        proof {
            use_type_invariant(self);
            self.lemma_entries();
        }
        match self.position(k) {
            Some(i) => Some(&self.vals[i]),
            None => None,
        }
    }

    /// The key of entry `i`.
    pub fn key_at(&self, i: usize) -> (res: u64)
        requires
            i < self.key_seq().len(),
        ensures
            res == self.key_seq()[i as int],
    {
        proof {
            use_type_invariant(self);
        }
        self.keys[i]
    }

    /// The value of entry `i`.
    pub fn value_at(&self, i: usize) -> (res: &V)
        requires
            i < self.key_seq().len(),
        ensures
            *res == self.val_seq()[i as int],
    {
        proof {
            use_type_invariant(self);
        }
        &self.vals[i]
    }

    /// Replaces the value of entry `i`, keeping its key and position.
    pub fn set_value_at(&mut self, i: usize, v: V)
        requires
            i < old(self).key_seq().len(),
        ensures
            final(self).key_seq() == old(self).key_seq(),
            final(self).val_seq() == old(self).val_seq().update(i as int, v),
            final(self)@ == old(self)@.insert(old(self).key_seq()[i as int], v),
    {
        proof {
            use_type_invariant(&*self);
            self.lemma_entries();
        }
        let ghost old_keys = self.key_seq();
        let ghost key = old_keys[i as int];
        let mut tmp = IdMap::new();
        std::mem::swap(&mut tmp, self);
        proof {
            use_type_invariant(&tmp);
        }
        let IdMap { keys, mut vals } = tmp;
        vals.set(i, v);
        *self = IdMap { keys, vals };
        proof {
            assert(self.key_seq() == old_keys);
            assert(self@ =~= old(self)@.insert(key, v)) by {
                let ks = self.key_seq();
                assert forall|kk: u64| #[trigger] self@.contains_key(kk)
                    implies self@[kk] == old(self)@.insert(key, v)[kk] by {
                    let j = ks.index_of(kk);
                    if kk == key {
                        assert(ks[i as int] == key);
                        assert(ks.no_duplicates());
                    } else {
                        assert(old(self).key_seq()[j] == kk);
                    }
                }
            }
        }
    }

    /// Stores `v` under `k`, replacing an earlier value in place.
    pub fn insert(&mut self, k: u64, v: V)
        ensures
            final(self)@ == old(self)@.insert(k, v),
            old(self)@.contains_key(k) ==> final(self).key_seq() == old(self).key_seq(),
            !old(self)@.contains_key(k) ==> final(self).key_seq() == old(self).key_seq().push(
                k,
            ),
    {
        proof {
            use_type_invariant(&*self);
            self.lemma_entries();
        }
        match self.position(&k) {
            Some(i) => {
                let ghost old_keys = self.key_seq();
                let mut tmp = IdMap::new();
                std::mem::swap(&mut tmp, self);
                proof {
                    use_type_invariant(&tmp);
                }
                let IdMap { keys, mut vals } = tmp;
                vals.set(i, v);
                *self = IdMap { keys, vals };
                proof {
                    assert(self.key_seq() == old_keys);
                    assert(self@ =~= old(self)@.insert(k, v)) by {
                        let ks = self.key_seq();
                        assert forall|key: u64| #[trigger] self@.contains_key(key)
                            implies self@[key] == old(self)@.insert(k, v)[key] by {
                            let j = ks.index_of(key);
                            if key == k {
                                assert(ks[i as int] == k);
                            } else {
                                assert(old(self).key_seq()[j] == key);
                            }
                        }
                    }
                }
            },
            None => {
                let ghost old_keys = self.key_seq();
                let mut tmp = IdMap::new();
                std::mem::swap(&mut tmp, self);
                proof {
                    use_type_invariant(&tmp);
                }
                let IdMap { mut keys, mut vals } = tmp;
                keys.push(k);
                vals.push(v);
                proof {
                    assert(keys@ =~= old_keys.push(k));
                }
                *self = IdMap { keys, vals };
                proof {
                    assert(self.key_seq() =~= old_keys.push(k));
                    assert(self@ =~= old(self)@.insert(k, v)) by {
                        let ks = self.key_seq();
                        assert forall|key: u64| #[trigger] self@.contains_key(key)
                            implies self@[key] == old(self)@.insert(k, v)[key] by {
                            let j = ks.index_of(key);
                            if key == k {
                                assert(ks[old_keys.len() as int] == k);
                            } else {
                                assert(ks[j] == key);
                                assert(j < old_keys.len());
                                assert(old_keys.contains(key));
                                let jo = old_keys.index_of(key);
                                assert(ks[jo] == key);
                            }
                        }
                        assert forall|key: u64| old(self)@.insert(k, v).contains_key(key)
                            implies #[trigger] self@.contains_key(key) by {
                            if key != k {
                                let jo = old_keys.index_of(key);
                                assert(ks[jo] == key);
                            } else {
                                assert(ks[old_keys.len() as int] == k);
                            }
                        }
                    }
                }
            },
        }
    }

    /// Removes the entry under `k`, returning its value.
    pub fn remove(&mut self, k: &u64) -> (res: Option<V>)
        ensures
            final(self)@ == old(self)@.remove(*k),
            match res {
                Some(v) => old(self)@.contains_key(*k) && v == old(self)@[*k],
                None => !old(self)@.contains_key(*k),
            },
    {
        proof {
            use_type_invariant(&*self);
            self.lemma_entries();
        }
        match self.position(k) {
            Some(i) => {
                let ghost old_keys = self.key_seq();
                let mut tmp = IdMap::new();
                std::mem::swap(&mut tmp, self);
                proof {
                    use_type_invariant(&tmp);
                }
                let IdMap { mut keys, mut vals } = tmp;
                let _ = keys.remove(i);
                let v = vals.remove(i);
                proof {
                    assert(keys@ =~= old_keys.remove(i as int));
                    assert(old_keys.remove(i as int).no_duplicates()) by {
                        assert forall|a: int, b: int|
                            0 <= a < old_keys.remove(i as int).len() && 0 <= b
                                < old_keys.remove(i as int).len() && a != b implies old_keys.remove(
                            i as int,
                        )[a] != old_keys.remove(i as int)[b] by {
                            let aa = if a < i {
                                a
                            } else {
                                a + 1
                            };
                            let bb = if b < i {
                                b
                            } else {
                                b + 1
                            };
                            assert(old_keys.remove(i as int)[a] == old_keys[aa]);
                            assert(old_keys.remove(i as int)[b] == old_keys[bb]);
                        }
                    }
                }
                *self = IdMap { keys, vals };
                proof {
                    assert(self.key_seq() =~= old_keys.remove(i as int));
                    let ks = self.key_seq();
                    assert forall|key: u64| #[trigger] self@.contains_key(key) implies self@[key]
                        == old(self)@[key] && key != *k by {
                        let j = ks.index_of(key);
                        let jo = if j < i {
                            j
                        } else {
                            j + 1
                        };
                        assert(old_keys[jo] == key);
                        assert(old(self).val_seq()[jo] == self.val_seq()[j]);
                        assert(old(self)@[key] == old(self).val_seq()[old_keys.index_of(key)]);
                    }
                    assert forall|key: u64| old(self)@.remove(*k).contains_key(key)
                        implies #[trigger] self@.contains_key(key) by {
                        let jo = old_keys.index_of(key);
                        assert(jo != i);
                        if jo < i {
                            assert(ks[jo] == key);
                        } else {
                            assert(ks[jo - 1] == key);
                        }
                    }
                    assert(self@ =~= old(self)@.remove(*k));
                }
                Some(v)
            },
            None => {
                assert(old(self)@.remove(*k) =~= old(self)@);
                None
            },
        }
    }
}

impl<V> View for IdMap<V> {
    type V = Map<u64, V>;

    closed spec fn view(&self) -> Map<u64, V> {
        Map::new(
            |k: u64| self.key_seq().contains(k),
            |k: u64| self.vals@[self.key_seq().index_of(k)],
        )
    }
}

} // verus!
