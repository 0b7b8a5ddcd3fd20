use vstd::prelude::*;

verus! {

/// A string-to-string map that keeps its entries in insertion order.
/// Each key occurs at most once.
pub struct StrMap {
    entries: Vec<(String, String)>,
}

/// The key and value of an entry, as character sequences.
pub open spec fn entry_view(p: (String, String)) -> (Seq<char>, Seq<char>) {
    (p.0@, p.1@)
}

/// True when no key occurs twice in `ps`.
pub open spec fn keys_unique(ps: Seq<(Seq<char>, Seq<char>)>) -> bool {
    forall|i: int, j: int| 0 <= i < ps.len() && 0 <= j < ps.len() && i != j ==> ps[i].0 != ps[j].0
}

/// The map described by a list of entries whose keys are unique.
pub open spec fn pairs_to_map(ps: Seq<(Seq<char>, Seq<char>)>) -> Map<Seq<char>, Seq<char>> {
    Map::new(
        |k: Seq<char>| exists|i: int| 0 <= i < ps.len() && ps[i].0 == k,
        |k: Seq<char>| ps[choose|i: int| 0 <= i < ps.len() && ps[i].0 == k].1,
    )
}

impl StrMap {
    /// The entries, in order, as character sequences.
    pub closed spec fn pairs(&self) -> Seq<(Seq<char>, Seq<char>)> {
        self.entries@.map_values(|p: (String, String)| entry_view(p))
    }

    #[verifier::type_invariant]
    closed spec fn inv(&self) -> bool {
        keys_unique(self.pairs())
    }

    /// An empty map.
    pub fn new() -> (m: Self)
        ensures
            m.pairs() == Seq::<(Seq<char>, Seq<char>)>::empty(),
            m@ == Map::<Seq<char>, Seq<char>>::empty(),
    {
        let m = StrMap { entries: Vec::new() };
        assert(m.pairs() =~= Seq::<(Seq<char>, Seq<char>)>::empty());
        assert(m@ =~= Map::<Seq<char>, Seq<char>>::empty());
        m
    }

    /// The number of entries.
    pub fn len(&self) -> (n: usize)
        ensures
            n == self.pairs().len(),
            keys_unique(self.pairs()),
            self@ == pairs_to_map(self.pairs()),
    {
        proof {
            use_type_invariant(self);
        }
        self.entries.len()
    }

    /// The key and value of entry `i`.
    pub fn entry(&self, i: usize) -> (r: (&String, &String))
        requires
            i < self.pairs().len(),
        ensures
            r.0@ == self.pairs()[i as int].0,
            r.1@ == self.pairs()[i as int].1,
    {
        (&self.entries[i].0, &self.entries[i].1)
    }

    /// The position of `key`, if present.
    pub fn find(&self, key: &String) -> (r: Option<usize>)
        ensures
            match r {
                Some(i) => i < self.pairs().len() && self.pairs()[i as int].0 == key@,
                None => forall|i: int| 0 <= i < self.pairs().len() ==> self.pairs()[i].0 != key@,
            },
    {
        let mut i: usize = 0;
        while i < self.entries.len()
            invariant
                i <= self.entries@.len(),
                self.pairs().len() == self.entries@.len(),
                forall|j: int| 0 <= j < i ==> self.pairs()[j].0 != key@,
            decreases self.entries@.len() - i,
        {
            if self.entries[i].0 == *key {
                return Some(i);
            }
            i = i + 1;
        }
        None
    }

    /// The value stored under `key`.
    pub fn get(&self, key: &String) -> (r: Option<&String>)
        ensures
            match r {
                Some(v) => self@.contains_key(key@) && self@[key@] == v@,
                None => !self@.contains_key(key@),
            },
    {
        proof {
            use_type_invariant(self);
        }
        match self.find(key) {
            Some(i) => {
                proof {
                    let ps = self.pairs();
                    let j = choose|j: int| 0 <= j < ps.len() && ps[j].0 == key@;
                    assert(j == i);
                }
                Some(&self.entries[i].1)
            },
            None => None,
        }
    }

    /// Stores `value` under `key`: an existing entry keeps its place and takes
    /// the new value, a new key is appended at the end.
    pub fn insert(&mut self, key: String, value: String)
        ensures
            final(self)@ == old(self)@.insert(key@, value@),
            old(self)@.contains_key(key@) ==> final(self).pairs().len() == old(self).pairs().len(),
            !old(self)@.contains_key(key@) ==> final(self).pairs() == old(self).pairs().push(
                (key@, value@),
            ),
    {
        proof {
            use_type_invariant(&*self);
        }
        let ghost old_ps = self.pairs();
        let ghost old_map = self@;
        match self.find(&key) {
            Some(i) => {
                let ghost kv = key@;
                let ghost vv = value@;
                let mut es: Vec<(String, String)> = Vec::new();
                std::mem::swap(&mut es, &mut self.entries);
                es.set(i, (key, value));
                proof {
                    let ps = es@.map_values(|p: (String, String)| entry_view(p));
                    assert(ps =~= old_ps.update(i as int, (kv, vv)));
                }
                self.entries = es;
                proof {
                    let ps = self.pairs();
                    assert(ps =~= old_ps.update(i as int, (kv, vv)));
                    assert(keys_unique(ps));
                    assert forall|k: Seq<char>| #[trigger] self@.contains_key(k) == old_map.insert(
                        kv,
                        vv,
                    ).contains_key(k) by {
                        if k != kv && old_map.contains_key(k) {
                            let j = choose|j: int| 0 <= j < old_ps.len() && old_ps[j].0 == k;
                            assert(ps[j].0 == k);
                        }
                        if k == kv {
                            assert(ps[i as int].0 == k);
                        }
                        if self@.contains_key(k) {
                            let j = choose|j: int| 0 <= j < ps.len() && ps[j].0 == k;
                            if j != i {
                                assert(old_ps[j].0 == k);
                            }
                        }
                    }
                    assert forall|k: Seq<char>| #[trigger]
                        self@.contains_key(k) implies self@[k] == old_map.insert(kv, vv)[k] by {
                        let j = choose|j: int| 0 <= j < ps.len() && ps[j].0 == k;
                        if k != kv {
                            assert(old_ps[j].0 == k);
                            let j2 = choose|j2: int| 0 <= j2 < old_ps.len() && old_ps[j2].0 == k;
                            assert(j2 == j);
                        } else {
                            assert(j == i);
                        }
                    }
                    assert(self@ =~= old_map.insert(kv, vv));
                }
            },
            None => {
                let ghost kv = key@;
                let ghost vv = value@;
                let mut es: Vec<(String, String)> = Vec::new();
                std::mem::swap(&mut es, &mut self.entries);
                es.push((key, value));
                proof {
                    let ps = es@.map_values(|p: (String, String)| entry_view(p));
                    assert(ps =~= old_ps.push((kv, vv)));
                }
                self.entries = es;
                proof {
                    let ps = self.pairs();
                    assert(ps =~= old_ps.push((kv, vv)));
                    assert(keys_unique(ps));
                    assert forall|k: Seq<char>| #[trigger] self@.contains_key(k) == old_map.insert(
                        kv,
                        vv,
                    ).contains_key(k) by {
                        if k != kv && old_map.contains_key(k) {
                            let j = choose|j: int| 0 <= j < old_ps.len() && old_ps[j].0 == k;
                            assert(ps[j].0 == k);
                        }
                        if k == kv {
                            assert(ps[old_ps.len() as int].0 == k);
                        }
                        if self@.contains_key(k) {
                            let j = choose|j: int| 0 <= j < ps.len() && ps[j].0 == k;
                            if j < old_ps.len() {
                                assert(old_ps[j].0 == k);
                            }
                        }
                    }
                    assert forall|k: Seq<char>| #[trigger]
                        self@.contains_key(k) implies self@[k] == old_map.insert(kv, vv)[k] by {
                        let j = choose|j: int| 0 <= j < ps.len() && ps[j].0 == k;
                        if k != kv {
                            assert(j < old_ps.len());
                            assert(old_ps[j].0 == k);
                            let j2 = choose|j2: int| 0 <= j2 < old_ps.len() && old_ps[j2].0 == k;
                            assert(j2 == j);
                        } else {
                            assert(ps[old_ps.len() as int].0 == k);
                            assert(j == old_ps.len());
                        }
                    }
                    assert(self@ =~= old_map.insert(kv, vv));
                }
            },
        }
    }
}

impl View for StrMap {
    type V = Map<Seq<char>, Seq<char>>;

    closed spec fn view(&self) -> Map<Seq<char>, Seq<char>> {
        pairs_to_map(self.pairs())
    }
}

/// The map a `StrMap` stands for is the one its entries describe.
pub proof fn lemma_view_is_pairs(m: StrMap)
    ensures
        m@ == pairs_to_map(m.pairs()),
{
}

} // verus!
