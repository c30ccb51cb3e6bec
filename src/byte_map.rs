use vstd::prelude::*;
use crate::bytes_util::{bytes_eq, copy_bytes};

verus! {

/// An association list keyed by byte strings; each key appears at most once.
pub struct ByteMap<V> {
    entries: Vec<(Vec<u8>, V)>,
}

impl<V: View> View for ByteMap<V> {
    type V = Map<Seq<u8>, V::V>;

    closed spec fn view(&self) -> Map<Seq<u8>, V::V> {
        Map::new(
            |k: Seq<u8>| exists|i: int| 0 <= i < self.entries@.len() && #[trigger] self.entries@[i].0@ == k,
            |k: Seq<u8>| self.entries@[choose|i: int| 0 <= i < self.entries@.len() && #[trigger] self.entries@[i].0@ == k].1@,
        )
    }
}

impl<V> ByteMap<V> {
    /// Keys are unique.
    #[verifier::type_invariant]
    closed spec fn wf(&self) -> bool {
        forall|i: int, j: int|
            0 <= i < self.entries@.len() && 0 <= j < self.entries@.len() && i != j
                ==> #[trigger] self.entries@[i].0@ != #[trigger] self.entries@[j].0@
    }
}

impl<V: View> ByteMap<V> {
    proof fn lemma_at(&self, i: int)
        requires
            self.wf(),
            0 <= i < self.entries@.len(),
        ensures
            self@.contains_key(self.entries@[i].0@),
            self@[self.entries@[i].0@] == self.entries@[i].1@,
    {
        let k = self.entries@[i].0@;
        assert(self.entries@[i].0@ == k);
        let j = choose|j: int| 0 <= j < self.entries@.len() && #[trigger] self.entries@[j].0@ == k;
        assert(i == j);
    }

    /// Only finitely many keys have an entry.
    pub proof fn lemma_view_finite(&self)
        ensures
            self@.dom().finite(),
    {
        broadcast use vstd::seq_lib::seq_to_set_is_finite;
        let ks = self.entries@.map_values(|e: (Vec<u8>, V)| e.0@);
        assert forall|k: Seq<u8>| #[trigger] self@.dom().contains(k) == ks.to_set().contains(k) by {
            if self@.dom().contains(k) {
                let i = choose|i: int| 0 <= i < self.entries@.len() && #[trigger] self.entries@[i].0@ == k;
                assert(ks[i] == k);
            }
            if ks.to_set().contains(k) {
                let i = choose|i: int| 0 <= i < ks.len() && ks[i] == k;
                assert(self.entries@[i].0@ == k);
            }
        }
        assert(self@.dom() =~= ks.to_set());
    }

    pub fn new() -> (r: Self)
        ensures
            r@ == Map::<Seq<u8>, V::V>::empty(),
    {
        let r = ByteMap { entries: Vec::new() };
        assert(r@ =~= Map::<Seq<u8>, V::V>::empty());
        r
    }

    fn find(&self, k: &[u8]) -> (r: Option<usize>)
        requires
            self.wf(),
        ensures
            match r {
                Some(i) => i < self.entries@.len() && self.entries@[i as int].0@ == k@,
                None => !self@.contains_key(k@),
            },
    {
        let mut i: usize = 0;
        while i < self.entries.len()
            invariant
                0 <= i <= self.entries@.len(),
                forall|j: int| 0 <= j < i ==> #[trigger] self.entries@[j].0@ != k@,
            decreases self.entries@.len() - i,
        {
            if bytes_eq(self.entries[i].0.as_slice(), k) {
                return Some(i);
            }
            i = i + 1;
        }
        None
    }

    /// Whether `k` has an entry.
    pub fn contains_key(&self, k: &[u8]) -> (r: bool)
        ensures
            r == self@.contains_key(k@),
    {
        proof { use_type_invariant(self); }
        match self.find(k) {
            Some(i) => {
                proof { self.lemma_at(i as int); }
                true
            },
            None => false,
        }
    }

    /// The value stored under `k`.
    pub fn get(&self, k: &[u8]) -> (r: Option<&V>)
        ensures
            match r {
                Some(v) => self@.contains_key(k@) && self@[k@] == v@,
                None => !self@.contains_key(k@),
            },
    {
        proof { use_type_invariant(self); }
        match self.find(k) {
            Some(i) => {
                proof { self.lemma_at(i as int); }
                Some(&self.entries[i].1)
            },
            None => None,
        }
    }

    /// Stores `v` under `k`, replacing what was there.
    pub fn insert(&mut self, k: Vec<u8>, v: V)
        ensures
            final(self)@ == old(self)@.insert(k@, v@),
    {
        proof { use_type_invariant(&*self); }
        let ghost old_self = *self;
        let ghost kv = k@;
        let ghost vv = v@;
        match self.find(k.as_slice()) {
            Some(i) => {
                let mut es: Vec<(Vec<u8>, V)> = Vec::new();
                std::mem::swap(&mut self.entries, &mut es);
                es.set(i, (k, v));
                assert(forall|a: int, b: int|
                    0 <= a < es@.len() && 0 <= b < es@.len() && a != b
                        ==> #[trigger] es@[a].0@ != #[trigger] es@[b].0@);
                std::mem::swap(&mut self.entries, &mut es);
                proof {
                    assert forall|key: Seq<u8>| #[trigger] self@.contains_key(key) == old_self@.insert(kv, vv).contains_key(key) by {
                        if key != kv && old_self@.contains_key(key) {
                            let j = choose|j: int| 0 <= j < old_self.entries@.len() && #[trigger] old_self.entries@[j].0@ == key;
                            assert(self.entries@[j].0@ == key);
                        }
                        if key == kv {
                            assert(self.entries@[i as int].0@ == key);
                        }
                        if self@.contains_key(key) && key != kv {
                            let j = choose|j: int| 0 <= j < self.entries@.len() && #[trigger] self.entries@[j].0@ == key;
                            assert(old_self.entries@[j].0@ == key);
                        }
                    }
                    assert forall|key: Seq<u8>| #[trigger] self@.contains_key(key) implies self@[key] == old_self@.insert(kv, vv)[key] by {
                        let j = choose|j: int| 0 <= j < self.entries@.len() && #[trigger] self.entries@[j].0@ == key;
                        self.lemma_at(j);
                        if j != i {
                            old_self.lemma_at(j);
                        }
                    }
                    assert(self@ =~= old_self@.insert(kv, vv));
                }
            },
            None => {
                let ghost n = old_self.entries@.len() as int;
                let mut es: Vec<(Vec<u8>, V)> = Vec::new();
                std::mem::swap(&mut self.entries, &mut es);
                es.push((k, v));
                proof {
                    assert forall|a: int| 0 <= a < n implies #[trigger] old_self.entries@[a].0@ != kv by {
                        if old_self.entries@[a].0@ == kv {
                            assert(old_self@.contains_key(kv));
                        }
                    }
                    assert(es@[n].0@ == kv);
                    assert forall|a: int, b: int|
                        0 <= a < es@.len() && 0 <= b < es@.len() && a != b
                        implies #[trigger] es@[a].0@ != #[trigger] es@[b].0@ by {
                        if a < n && b < n {
                            assert(es@[a] == old_self.entries@[a]);
                            assert(es@[b] == old_self.entries@[b]);
                        } else if a < n {
                            assert(es@[a] == old_self.entries@[a]);
                        } else {
                            assert(es@[b] == old_self.entries@[b]);
                        }
                    }
                }
                std::mem::swap(&mut self.entries, &mut es);
                proof {
                    assert forall|key: Seq<u8>| #[trigger] self@.contains_key(key) == old_self@.insert(kv, vv).contains_key(key) by {
                        if key != kv && old_self@.contains_key(key) {
                            let j = choose|j: int| 0 <= j < old_self.entries@.len() && #[trigger] old_self.entries@[j].0@ == key;
                            assert(self.entries@[j].0@ == key);
                        }
                        if key == kv {
                            assert(self.entries@[n].0@ == key);
                        }
                        if self@.contains_key(key) && key != kv {
                            let j = choose|j: int| 0 <= j < self.entries@.len() && #[trigger] self.entries@[j].0@ == key;
                            assert(old_self.entries@[j].0@ == key);
                        }
                    }
                    assert forall|key: Seq<u8>| #[trigger] self@.contains_key(key) implies self@[key] == old_self@.insert(kv, vv)[key] by {
                        let j = choose|j: int| 0 <= j < self.entries@.len() && #[trigger] self.entries@[j].0@ == key;
                        self.lemma_at(j);
                        if j != n {
                            old_self.lemma_at(j);
                        }
                    }
                    assert(self@ =~= old_self@.insert(kv, vv));
                }
            },
        }
    }

    /// Removes the entry of `k`, handing back its value.
    pub fn remove(&mut self, k: &[u8]) -> (r: Option<V>)
        ensures
            final(self)@ == old(self)@.remove(k@),
            match r {
                Some(v) => old(self)@.contains_key(k@) && old(self)@[k@] == v@,
                None => !old(self)@.contains_key(k@),
            },
    {
        proof { use_type_invariant(&*self); }
        let ghost old_self = *self;
        match self.find(k) {
            Some(i) => {
                proof { old_self.lemma_at(i as int); }
                let mut es: Vec<(Vec<u8>, V)> = Vec::new();
                std::mem::swap(&mut self.entries, &mut es);
                let (_, v) = es.remove(i);
                proof {
                    let ii = i as int;
                    assert forall|a: int, b: int|
                        0 <= a < es@.len() && 0 <= b < es@.len() && a != b
                        implies #[trigger] es@[a].0@ != #[trigger] es@[b].0@ by {
                        let oa = if a < ii { a } else { a + 1 };
                        let ob = if b < ii { b } else { b + 1 };
                        assert(es@[a] == old_self.entries@[oa]);
                        assert(es@[b] == old_self.entries@[ob]);
                    }
                }
                std::mem::swap(&mut self.entries, &mut es);
                proof {
                    let ii = i as int;
                    let kv = k@;
                    assert forall|key: Seq<u8>| #[trigger] self@.contains_key(key) == old_self@.remove(kv).contains_key(key) by {
                        if key != kv && old_self@.contains_key(key) {
                            let j = choose|j: int| 0 <= j < old_self.entries@.len() && #[trigger] old_self.entries@[j].0@ == key;
                            let nj = if j < ii { j } else { j - 1 };
                            assert(self.entries@[nj] == old_self.entries@[j]);
                        }
                        if self@.contains_key(key) {
                            let j = choose|j: int| 0 <= j < self.entries@.len() && #[trigger] self.entries@[j].0@ == key;
                            let oj = if j < ii { j } else { j + 1 };
                            assert(self.entries@[j] == old_self.entries@[oj]);
                            assert(oj != ii);
                        }
                    }
                    assert forall|key: Seq<u8>| #[trigger] self@.contains_key(key) implies self@[key] == old_self@.remove(kv)[key] by {
                        let j = choose|j: int| 0 <= j < self.entries@.len() && #[trigger] self.entries@[j].0@ == key;
                        let oj = if j < ii { j } else { j + 1 };
                        assert(self.entries@[j] == old_self.entries@[oj]);
                        self.lemma_at(j);
                        old_self.lemma_at(oj);
                    }
                    assert(self@ =~= old_self@.remove(kv));
                }
                Some(v)
            },
            None => {
                assert(self@ =~= old_self@.remove(k@));
                None
            },
        }
    }
}

impl ByteMap<Vec<u8>> {
    /// A copy holding the same entries.
    pub fn duplicate(&self) -> (r: Self)
        ensures
            r@ == self@,
    {
        proof { use_type_invariant(self); }
        let mut out: Vec<(Vec<u8>, Vec<u8>)> = Vec::new();
        let mut i: usize = 0;
        while i < self.entries.len()
            invariant
                0 <= i <= self.entries@.len(),
                out@.len() == i,
                forall|j: int| 0 <= j < i ==> (#[trigger] out@[j]).0@ == self.entries@[j].0@ && out@[j].1@ == self.entries@[j].1@,
            decreases self.entries@.len() - i,
        {
            let k = copy_bytes(self.entries[i].0.as_slice());
            let v = copy_bytes(self.entries[i].1.as_slice());
            out.push((k, v));
            i = i + 1;
        }
        assert forall|a: int, b: int|
            0 <= a < out@.len() && 0 <= b < out@.len() && a != b
            implies #[trigger] out@[a].0@ != #[trigger] out@[b].0@ by {
            assert(self.entries@[a].0@ != self.entries@[b].0@);
        }
        let r = ByteMap { entries: out };
        proof {
            assert forall|key: Seq<u8>| #[trigger] r@.contains_key(key) == self@.contains_key(key) by {
                if r@.contains_key(key) {
                    let j = choose|j: int| 0 <= j < r.entries@.len() && #[trigger] r.entries@[j].0@ == key;
                    assert(self.entries@[j].0@ == key);
                }
                if self@.contains_key(key) {
                    let j = choose|j: int| 0 <= j < self.entries@.len() && #[trigger] self.entries@[j].0@ == key;
                    assert(r.entries@[j].0@ == key);
                }
            }
            assert forall|key: Seq<u8>| #[trigger] r@.contains_key(key) implies r@[key] == self@[key] by {
                let j = choose|j: int| 0 <= j < r.entries@.len() && #[trigger] r.entries@[j].0@ == key;
                r.lemma_at(j);
                self.lemma_at(j);
            }
            assert(r@ =~= self@);
        }
        r
    }
}

} // verus!
