//! A string-keyed map that can list its keys.
use vstd::hash_map::StringHashMap;
use vstd::prelude::*;

use crate::text::views;

verus! {

/// A map from strings to values, together with the list of its keys so that
/// the entries can be visited one by one.
#[verifier::reject_recursive_types(V)]
pub struct KeyedMap<V> {
    map: StringHashMap<V>,
    keys: Vec<String>,
}

/// No two strings of `ks` have the same characters.
pub open spec fn distinct_views(ks: Seq<Seq<char>>) -> bool {
    forall|i: int, j: int| 0 <= i < j < ks.len() ==> ks[i] != ks[j]
}

/// `ks` lists the keys of `m`, each once.
pub open spec fn lists_keys<V>(ks: Seq<Seq<char>>, m: Map<Seq<char>, V>) -> bool {
    &&& distinct_views(ks)
    &&& forall|i: int| 0 <= i < ks.len() ==> m.contains_key(#[trigger] ks[i])
    &&& forall|k: Seq<char>| m.contains_key(k) ==> ks.contains(k)
}

impl<V> View for KeyedMap<V> {
    type V = Map<Seq<char>, V>;

    closed spec fn view(&self) -> Map<Seq<char>, V> {
        self.map@
    }
}

impl<V> KeyedMap<V> {
    /// The key list names each key of the map exactly once.
    pub closed spec fn wf(self) -> bool {
        lists_keys(views(self.keys@), self.map@)
    }

    /// An empty map.
    pub fn new() -> (r: Self)
        ensures
            r.wf(),
            r@ == Map::<Seq<char>, V>::empty(),
    {
        let r = KeyedMap { map: StringHashMap::new(), keys: Vec::new() };
        assert(views(r.keys@) =~= Seq::<Seq<char>>::empty());
        r
    }

    /// Whether `k` is a key.
    pub fn contains_key(&self, k: &str) -> (r: bool)
        ensures
            r == self@.contains_key(k@),
    {
        self.map.contains_key(k)
    }

    /// The value under `k`, if any.
    pub fn get(&self, k: &str) -> (r: Option<&V>)
        ensures
            match r {
                Some(v) => self@.contains_key(k@) && *v == self@[k@],
                None => !self@.contains_key(k@),
            },
    {
        self.map.get(k)
    }

    /// Where `k` stands in the key list.
    fn position(&self, k: &str) -> (r: Option<usize>)
        ensures
            match r {
                Some(i) => i < self.keys@.len() && self.keys@[i as int]@ == k@,
                None => forall|i: int| 0 <= i < self.keys@.len() ==> self.keys@[i]@ != k@,
            },
    {
        let mut i: usize = 0;
        while i < self.keys.len()
            invariant
                i <= self.keys@.len(),
                forall|j: int| 0 <= j < i ==> self.keys@[j]@ != k@,
            decreases self.keys@.len() - i,
        {
            if crate::text::str_eq(self.keys[i].as_str(), k) {
                return Some(i);
            }
            i = i + 1;
        }
        None
    }

    /// Sets the value under `k`, replacing any value that was there.
    pub fn insert(&mut self, k: String, v: V)
        requires
            old(self).wf(),
        ensures
            final(self).wf(),
            final(self)@ == old(self)@.insert(k@, v),
    {
        let present = self.map.contains_key(k.as_str());
        let ghost ks0 = views(self.keys@);
        if !present {
            let kc = k.clone();
            self.keys.push(kc);
            proof {
                assert(views(self.keys@) =~= ks0.push(k@));
                assert forall|i: int| 0 <= i < ks0.len() implies ks0[i] != k@ by {
                    assert(old(self)@.contains_key(ks0[i]));
                }
            }
        }
        self.map.insert(k, v);
        proof {
            let ks = views(self.keys@);
            assert forall|key: Seq<char>| self.map@.contains_key(key) implies ks.contains(key) by {
                if key != k@ {
                    assert(old(self)@.contains_key(key));
                    assert(ks0.contains(key));
                    let j = choose|j: int| 0 <= j < ks0.len() && ks0[j] == key;
                    assert(ks[j] == ks0[j]);
                } else if !present {
                    assert(ks[ks.len() - 1] == key);
                }
            }
        }
    }

    /// Removes the entry under `k`, if any.
    pub fn remove(&mut self, k: &str)
        requires
            old(self).wf(),
        ensures
            final(self).wf(),
            final(self)@ == old(self)@.remove(k@),
    {
        let ghost ks0 = views(self.keys@);
        let pos = self.position(k);
        match pos {
            Some(i) => {
                let _ = self.keys.remove(i);
                proof {
                    assert(views(self.keys@) =~= ks0.remove(i as int));
                }
            },
            None => {
                proof {
                    assert(views(self.keys@) == ks0);
                    assert(!old(self)@.contains_key(k@)) by {
                        if old(self)@.contains_key(k@) {
                            assert(ks0.contains(k@));
                            let j = choose|j: int| 0 <= j < ks0.len() && ks0[j] == k@;
                            assert(old(self).keys@[j]@ == k@);
                        }
                    }
                }
            },
        }
        self.map.remove(k);
        proof {
            let ks = views(self.keys@);
            assert forall|a: int| 0 <= a < ks.len() implies self.map@.contains_key(#[trigger] ks[a]) by {
                match pos {
                    Some(i) => {
                        let b = if a < i { a } else { a + 1 };
                        assert(ks[a] == ks0[b]);
                        assert(old(self)@.contains_key(ks0[b]));
                        assert(ks0[b] != ks0[i as int]);
                    },
                    None => {
                        assert(ks[a] == ks0[a]);
                        assert(old(self)@.contains_key(ks0[a]));
                        assert(old(self).keys@[a]@ != k@);
                    },
                }
            }
            assert forall|key: Seq<char>| self.map@.contains_key(key) implies ks.contains(key) by {
                assert(ks0.contains(key));
                let j = choose|j: int| 0 <= j < ks0.len() && ks0[j] == key;
                match pos {
                    Some(i) => {
                        if j < i {
                            assert(ks[j] == key);
                        } else {
                            assert(j != i);
                            assert(ks[j - 1] == key);
                        }
                    },
                    None => {
                        assert(ks[j] == key);
                    },
                }
            }
        }
    }

    /// A copy of the key list.
    pub fn key_list(&self) -> (r: Vec<String>)
        requires
            self.wf(),
        ensures
            lists_keys(views(r@), self@),
    {
        let r = self.keys.clone();
        proof {
            assert forall|i: int| 0 <= i < r@.len() implies r@[i] == self.keys@[i] by {
                assert(cloned::<String>(self.keys@[i], r@[i]));
            }
            assert(views(r@) =~= views(self.keys@));
        }
        r
    }
}

} // verus!
