use vstd::prelude::*;

verus! {

/// A small insertion-ordered map from `u32` keys to values.
///
/// Keys are kept in the order in which they were first inserted, so walking
/// the map is deterministic.
#[derive(Debug)]
pub struct VecMap<V> {
    keys: Vec<u32>,
    vals: Vec<V>,
}

/// Position of the first occurrence of `k` in `s`, or `s.len()` when absent.
pub open spec fn position_of<A>(s: Seq<A>, k: A) -> int
    decreases s.len(),
{
    if s.len() == 0 {
        0
    } else if s[0] == k {
        0
    } else {
        1 + position_of(s.subrange(1, s.len() as int), k)
    }
}

pub proof fn lemma_position_of<A>(s: Seq<A>, k: A)
    ensures
        0 <= position_of(s, k) <= s.len(),
        position_of(s, k) < s.len() ==> s[position_of(s, k)] == k,
        forall|i: int| 0 <= i < position_of(s, k) ==> s[i] != k,
        s.contains(k) <==> position_of(s, k) < s.len(),
    decreases s.len(),
{
    if s.len() == 0 {
    } else if s[0] == k {
        assert(s.contains(k));
    } else {
        let t = s.subrange(1, s.len() as int);
        lemma_position_of(t, k);
        let p = position_of(t, k);
        assert forall|i: int| 0 <= i < 1 + p implies s[i] != k by {
            if i > 0 {
                assert(t[i - 1] == s[i]);
            }
        }
        if p < t.len() {
            assert(t[p] == s[p + 1]);
            assert(s.contains(k));
        }
        if s.contains(k) {
            let i = choose|i: int| 0 <= i < s.len() && s[i] == k;
            assert(t[i - 1] == k);
            assert(t.contains(k));
        }
    }
}

/// The map that sends each key of `keys` to the value at its first position.
pub open spec fn map_of<V>(keys: Seq<u32>, vals: Seq<V>) -> Map<u32, V> {
    Map::new(|k: u32| keys.contains(k), |k: u32| vals[position_of(keys, k)])
}

impl<V> VecMap<V> {
    /// Keys and values run in parallel and no key occurs twice.
    #[verifier::type_invariant]
    pub closed spec fn wf(&self) -> bool {
        &&& self.keys@.len() == self.vals@.len()
        &&& self.keys@.no_duplicates()
    }

    /// The keys in insertion order.
    pub closed spec fn key_seq(&self) -> Seq<u32> {
        self.keys@
    }

    /// The values, in the order of `key_seq`.
    pub closed spec fn val_seq(&self) -> Seq<V> {
        self.vals@
    }

    /// The map this container stands for.
    pub open spec fn view(&self) -> Map<u32, V> {
        map_of(self.key_seq(), self.val_seq())
    }

    pub proof fn lemma_wf(&self)
        requires
            self.wf(),
        ensures
            self.key_seq().len() == self.val_seq().len(),
            self.key_seq().no_duplicates(),
            forall|i: int|
                0 <= i < self.key_seq().len() ==> #[trigger] position_of(
                    self.key_seq(),
                    self.key_seq()[i],
                ) == i,
            forall|i: int|
                0 <= i < self.key_seq().len() ==> self@.contains_key(#[trigger] self.key_seq()[i])
                    && self@[self.key_seq()[i]] == self.val_seq()[i],
    {
        assert forall|i: int| 0 <= i < self.key_seq().len() implies #[trigger] position_of(
            self.key_seq(),
            self.key_seq()[i],
        ) == i by {
            lemma_position_of(self.key_seq(), self.key_seq()[i]);
        }
    }

    pub fn new() -> (m: Self)
        ensures
            m.wf(),
            m@ == Map::<u32, V>::empty(),
            m.key_seq() == Seq::<u32>::empty(),
    {
        let m = VecMap { keys: Vec::new(), vals: Vec::new() };
        assert(m@ =~= Map::<u32, V>::empty());
        m
    }

    pub fn with_capacity(capacity: usize) -> (m: Self)
        ensures
            m.wf(),
            m@ == Map::<u32, V>::empty(),
            m.key_seq() == Seq::<u32>::empty(),
    {
        let m = VecMap { keys: Vec::with_capacity(capacity), vals: Vec::with_capacity(capacity) };
        assert(m@ =~= Map::<u32, V>::empty());
        m
    }

    pub fn len(&self) -> (n: usize)
        ensures
            n == self.key_seq().len(),
    {
        proof {
            use_type_invariant(self);
        }
        self.keys.len()
    }

    /// Index of `k` among the keys.
    pub fn find(&self, k: u32) -> (r: Option<usize>)
        ensures
            match r {
                Some(i) => i < self.key_seq().len() && self.key_seq()[i as int] == k
                    && position_of(self.key_seq(), k) == i && self@.contains_key(k),
                None => !self@.contains_key(k),
            },
        no_unwind
    {
        proof {
            use_type_invariant(self);
        }
        let mut i: usize = 0;
        while i < self.keys.len()
            invariant
                i <= self.keys@.len(),
                forall|j: int| 0 <= j < i ==> self.keys@[j] != k,
            decreases self.keys@.len() - i,
        {
            if self.keys[i] == k {
                proof {
                    lemma_position_of(self.keys@, k);
                }
                return Some(i);
            }
            i = i + 1;
        }
        None
    }

    pub fn contains_key(&self, k: u32) -> (b: bool)
        ensures
            b == self@.contains_key(k),
    {
        self.find(k).is_some()
    }

    pub fn get(&self, k: u32) -> (r: Option<&V>)
        ensures
            match r {
                Some(v) => self@.contains_key(k) && *v == self@[k],
                None => !self@.contains_key(k),
            },
    {
        proof {
            use_type_invariant(self);
        }
        match self.find(k) {
            Some(i) => Some(&self.vals[i]),
            None => None,
        }
    }

    pub fn key_at(&self, i: usize) -> (k: u32)
        requires
            i < self.key_seq().len(),
        ensures
            k == self.key_seq()[i as int],
            self@.contains_key(k),
    {
        proof {
            use_type_invariant(self);
        }
        proof {
            self.lemma_wf();
        }
        self.keys[i]
    }

    pub fn val_at(&self, i: usize) -> (v: &V)
        requires
            i < self.key_seq().len(),
        ensures
            *v == self.val_seq()[i as int],
            *v == self@[self.key_seq()[i as int]],
    {
        proof {
            use_type_invariant(self);
            self.lemma_wf();
        }
        &self.vals[i]
    }

    pub fn get_mut(&mut self, k: u32) -> (r: Option<&mut V>)
        ensures
            final(self).wf(),
            final(self).key_seq() == old(self).key_seq(),
            match r {
                Some(v) => old(self)@.contains_key(k) && *v == old(self)@[k] && final(self)@
                    == old(self)@.insert(k, *final(v)),
                None => !old(self)@.contains_key(k) && *final(self) == *old(self),
            },
        no_unwind
    {
        proof {
            use_type_invariant(&*self);
        }
        match self.find(k) {
            Some(i) => {
                proof {
                    self.lemma_wf();
                }
                assert forall|x: V|
                    #[trigger] map_of(self.keys@, self.vals@.update(i as int, x)) == map_of(
                        self.keys@,
                        self.vals@,
                    ).insert(k, x) by {
                    assert(map_of(self.keys@, self.vals@.update(i as int, x)) =~= map_of(
                        self.keys@,
                        self.vals@,
                    ).insert(k, x));
                }
                Some(&mut self.vals[i])
            },
            None => None,
        }
    }

    /// Sets the value under `k`, keeping the key's place when it was present.
    pub fn insert(&mut self, k: u32, v: V)
        ensures
            final(self).wf(),
            final(self)@ == old(self)@.insert(k, v),
            final(self).key_seq() == if old(self)@.contains_key(k) {
                old(self).key_seq()
            } else {
                old(self).key_seq().push(k)
            },
    {
        proof {
            use_type_invariant(&*self);
            self.lemma_wf();
        }
        let found = self.find(k);
        let mut taken = VecMap::new();
        std::mem::swap(self, &mut taken);
        let VecMap { mut keys, mut vals } = taken;
        match found {
            Some(i) => {
                vals.set(i, v);
                proof {
                    assert(map_of(keys@, vals@) =~= old(self)@.insert(k, v));
                }
            },
            None => {
                keys.push(k);
                vals.push(v);
                proof {
                    assert(keys@.no_duplicates());
                    assert forall|i: int| 0 <= i < keys@.len() implies #[trigger] position_of(
                        keys@,
                        keys@[i],
                    ) == i by {
                        lemma_position_of(keys@, keys@[i]);
                    }
                    assert forall|q: u32| old(self).keys@.contains(q) implies position_of(keys@, q)
                        == position_of(old(self).keys@, q) by {
                        lemma_position_of(old(self).keys@, q);
                        lemma_position_of(keys@, q);
                        let a = position_of(old(self).keys@, q);
                        let b = position_of(keys@, q);
                        assert(keys@[a] == q);
                        if b < a {
                            assert(old(self).keys@[b] == q);
                        }
                    }
                    assert forall|q: u32| keys@.contains(q) <==> (q == k || old(
                        self,
                    ).keys@.contains(q)) by {
                        if old(self).keys@.contains(q) {
                            let i = choose|i: int|
                                0 <= i < old(self).keys@.len() && old(self).keys@[i] == q;
                            assert(keys@[i] == q);
                        }
                        if q == k {
                            assert(keys@[keys@.len() - 1] == k);
                        }
                    }
                    assert(map_of(keys@, vals@) =~= old(self)@.insert(k, v));
                }
            },
        }
        *self = VecMap { keys, vals };
    }
}

} // verus!
