//! An ordered association map, the in-memory model of a runtime storage map.
use vstd::prelude::*;

verus! {

/// Keys of a storage map: compared and copied by their view.
pub trait StorageKey: View + Sized {
    fn key_eq(&self, other: &Self) -> (same: bool)
        ensures
            same == (self@ == other@),
    ;

    fn key_clone(&self) -> (copy: Self)
        ensures
            copy@ == self@,
    ;
}

impl StorageKey for u32 {
    fn key_eq(&self, other: &Self) -> (same: bool) {
        *self == *other
    }

    fn key_clone(&self) -> (copy: Self) {
        *self
    }
}

impl StorageKey for u128 {
    fn key_eq(&self, other: &Self) -> (same: bool) {
        *self == *other
    }

    fn key_clone(&self) -> (copy: Self) {
        *self
    }
}

impl StorageKey for [u8; 32] {
    fn key_eq(&self, other: &Self) -> (same: bool) {
        let mut i: usize = 0;
        while i < 32
            invariant
                0 <= i <= 32,
                self@.len() == 32,
                other@.len() == 32,
                forall|j: int| 0 <= j < i ==> self@[j] == other@[j],
            decreases 32 - i,
        {
            if self[i] != other[i] {
                return false;
            }
            i = i + 1;
        }
        assert(self@ =~= other@);
        true
    }

    fn key_clone(&self) -> (copy: Self) {
        *self
    }
}

impl StorageKey for Vec<u8> {
    fn key_eq(&self, other: &Self) -> (same: bool) {
        if self.len() != other.len() {
            return false;
        }
        let mut i: usize = 0;
        while i < self.len()
            invariant
                0 <= i <= self@.len(),
                self@.len() == other@.len(),
                forall|j: int| 0 <= j < i ==> self@[j] == other@[j],
            decreases self@.len() - i,
        {
            if self[i] != other[i] {
                return false;
            }
            i = i + 1;
        }
        assert(self@ =~= other@);
        true
    }

    fn key_clone(&self) -> (copy: Self) {
        self.clone()
    }
}

/// A map from keys to values that keeps its entries in insertion order.
#[derive(Debug)]
pub struct KeyedMap<K: StorageKey, V> {
    entries: Vec<(K, V)>,
}

impl<K: StorageKey, V> KeyedMap<K, V> {
    #[verifier::type_invariant]
    closed spec fn keys_distinct(self) -> bool {
        forall|i: int, j: int|
            0 <= i < self.entries@.len() && 0 <= j < self.entries@.len() && i != j
                ==> #[trigger] self.entries@[i].0@ != #[trigger] self.entries@[j].0@
    }

    /// The keys, in the order in which they were first inserted.
    pub closed spec fn key_seq(self) -> Seq<K::V> {
        Seq::new(self.entries@.len(), |i: int| self.entries@[i].0@)
    }

    closed spec fn has_key_at(self, k: K::V, i: int) -> bool {
        0 <= i < self.entries@.len() && self.entries@[i].0@ == k
    }

    closed spec fn position(self, k: K::V) -> int {
        choose|i: int| self.has_key_at(k, i)
    }

    /// The map that the entries stand for.
    pub closed spec fn as_map(self) -> Map<K::V, V> {
        Map::new(
            |k: K::V| exists|i: int| self.has_key_at(k, i),
            |k: K::V| self.entries@[self.position(k)].1,
        )
    }

    proof fn lemma_position(self, k: K::V, i: int)
        requires
            self.keys_distinct(),
            self.has_key_at(k, i),
        ensures
            self.position(k) == i,
            self.as_map().contains_key(k),
            self.as_map()[k] == self.entries@[i].1,
    {
        let p = self.position(k);
        assert(self.has_key_at(k, p));
        if p != i {
            assert(self.entries@[p].0@ != self.entries@[i].0@);
        }
    }

    proof fn lemma_dom(self)
        requires
            self.keys_distinct(),
        ensures
            self.as_map().dom() =~= self.key_seq().to_set(),
            self.key_seq().no_duplicates(),
            self.as_map().dom().finite(),
            self.as_map().dom().len() == self.entries@.len(),
    {
        assert forall|k: K::V| self.as_map().dom().contains(k) <==> self.key_seq().to_set().contains(k) by {
            if self.as_map().dom().contains(k) {
                let i = choose|i: int| self.has_key_at(k, i);
                assert(self.key_seq()[i] == k);
            }
            if self.key_seq().to_set().contains(k) {
                let i = choose|i: int| 0 <= i < self.key_seq().len() && self.key_seq()[i] == k;
                assert(self.has_key_at(k, i));
            }
        }
        assert forall|i: int, j: int|
            0 <= i < self.key_seq().len() && 0 <= j < self.key_seq().len() && i != j
                implies self.key_seq()[i] != self.key_seq()[j] by {
            assert(self.entries@[i].0@ != self.entries@[j].0@);
        }
        self.key_seq().unique_seq_to_set();
        vstd::seq_lib::seq_to_set_is_finite(self.key_seq());
    }

    /// The number of entries, which is the number of keys of the map.
    pub closed spec fn spec_len(self) -> nat {
        self.entries@.len()
    }

    pub fn new() -> (map: Self)
        ensures
            map@ == Map::<K::V, V>::empty(),
            map.spec_len() == 0,
    {
        let map = KeyedMap { entries: Vec::new() };
        assert(map@ =~= Map::<K::V, V>::empty());
        map
    }

    fn find(&self, k: &K) -> (found: Option<usize>)
        ensures
            match found {
                Some(i) => self.has_key_at(k@, i as int),
                None => forall|i: int| 0 <= i < self.entries@.len() ==> self.entries@[i].0@ != k@,
            },
    {
        let mut i: usize = 0;
        while i < self.entries.len()
            invariant
                0 <= i <= self.entries@.len(),
                forall|j: int| 0 <= j < i ==> self.entries@[j].0@ != k@,
            decreases self.entries@.len() - i,
        {
            if self.entries[i].0.key_eq(k) {
                return Some(i);
            }
            i = i + 1;
        }
        None
    }

    /// The number of keys in the map.
    pub fn len(&self) -> (n: usize)
        ensures
            n == self.spec_len(),
            n == self@.dom().len(),
            self@.dom().finite(),
    {
        proof {
            use_type_invariant(self);
            self.lemma_dom();
        }
        self.entries.len()
    }

    pub fn contains_key(&self, k: &K) -> (present: bool)
        ensures
            present == self@.contains_key(k@),
    {
        proof {
            use_type_invariant(self);
        }
        match self.find(k) {
            Some(i) => {
                proof {
                    self.lemma_position(k@, i as int);
                }
                true
            },
            None => false,
        }
    }

    pub fn get(&self, k: &K) -> (value: Option<&V>)
        ensures
            match value {
                Some(v) => self@.contains_key(k@) && *v == self@[k@],
                None => !self@.contains_key(k@),
            },
    {
        proof {
            use_type_invariant(self);
        }
        match self.find(k) {
            Some(i) => {
                proof {
                    self.lemma_position(k@, i as int);
                }
                Some(&self.entries[i].1)
            },
            None => None,
        }
    }

    /// Insert or overwrite the value of a key. A new key goes after all others.
    pub fn insert(&mut self, k: K, v: V)
        ensures
            final(self)@ == old(self)@.insert(k@, v),
            old(self)@.contains_key(k@) ==> final(self).key_seq() == old(self).key_seq(),
            !old(self)@.contains_key(k@) ==> final(self).key_seq() == old(self).key_seq().push(k@),
    {
        proof {
            use_type_invariant(&*self);
        }
        let ghost old_self = *self;
        let ghost kv = k@;
        match self.find(&k) {
            Some(i) => {
                proof {
                    old_self.lemma_position(kv, i as int);
                }
                let mut entries: Vec<(K, V)> = Vec::new();
                std::mem::swap(&mut entries, &mut self.entries);
                entries.set(i, (k, v));
                self.entries = entries;
                proof {
                    assert forall|key: K::V| #![auto] self.as_map().contains_key(key) <==> old_self.as_map().insert(kv, v).contains_key(key) by {
                        if self.as_map().contains_key(key) {
                            let j = choose|j: int| self.has_key_at(key, j);
                            assert(old_self.has_key_at(key, j) || j == i);
                        }
                        if old_self.as_map().contains_key(key) {
                            let j = choose|j: int| old_self.has_key_at(key, j);
                            assert(self.has_key_at(key, j));
                        }
                    }
                    assert forall|key: K::V| #![auto] self.as_map().contains_key(key) implies self.as_map()[key] == old_self.as_map().insert(kv, v)[key] by {
                        let j = choose|j: int| self.has_key_at(key, j);
                        self.lemma_position(key, j);
                        if key != kv {
                            assert(old_self.has_key_at(key, j));
                            old_self.lemma_position(key, j);
                        }
                    }
                    assert(self.as_map() =~= old_self.as_map().insert(kv, v));
                    assert(self.key_seq() =~= old_self.key_seq());
                }
            },
            None => {
                let mut entries: Vec<(K, V)> = Vec::new();
                std::mem::swap(&mut entries, &mut self.entries);
                entries.push((k, v));
                self.entries = entries;
                proof {
                    let n = old_self.entries@.len() as int;
                    assert(self.has_key_at(kv, n));
                    self.lemma_position(kv, n);
                    assert forall|key: K::V| #![auto] self.as_map().contains_key(key) <==> old_self.as_map().insert(kv, v).contains_key(key) by {
                        if self.as_map().contains_key(key) {
                            let j = choose|j: int| self.has_key_at(key, j);
                            assert(old_self.has_key_at(key, j) || j == n);
                        }
                        if old_self.as_map().contains_key(key) {
                            let j = choose|j: int| old_self.has_key_at(key, j);
                            assert(self.has_key_at(key, j));
                        }
                    }
                    assert forall|key: K::V| #![auto] self.as_map().contains_key(key) implies self.as_map()[key] == old_self.as_map().insert(kv, v)[key] by {
                        let j = choose|j: int| self.has_key_at(key, j);
                        self.lemma_position(key, j);
                        if key != kv {
                            assert(old_self.has_key_at(key, j));
                            old_self.lemma_position(key, j);
                        }
                    }
                    assert(self.as_map() =~= old_self.as_map().insert(kv, v));
                    assert(self.key_seq() =~= old_self.key_seq().push(kv));
                }
            },
        }
    }

    /// Remove a key and hand back its value, if it was present.
    pub fn remove(&mut self, k: &K) -> (value: Option<V>)
        ensures
            final(self)@ == old(self)@.remove(k@),
            match value {
                Some(v) => old(self)@.contains_key(k@) && v == old(self)@[k@],
                None => !old(self)@.contains_key(k@),
            },
    {
        proof {
            use_type_invariant(&*self);
        }
        let ghost old_self = *self;
        let ghost kv = k@;
        match self.find(k) {
            Some(i) => {
                proof {
                    old_self.lemma_position(kv, i as int);
                }
                let mut entries: Vec<(K, V)> = Vec::new();
                std::mem::swap(&mut entries, &mut self.entries);
                let (_, v) = entries.remove(i);
                self.entries = entries;
                proof {
                    let ii = i as int;
                    assert forall|a: int, b: int|
                        0 <= a < self.entries@.len() && 0 <= b < self.entries@.len() && a != b
                            implies #[trigger] self.entries@[a].0@ != #[trigger] self.entries@[b].0@ by {
                        let oa = if a < ii { a } else { a + 1 };
                        let ob = if b < ii { b } else { b + 1 };
                        assert(old_self.entries@[oa].0@ != old_self.entries@[ob].0@);
                    }
                    assert forall|key: K::V| #![auto] self.as_map().contains_key(key) <==> old_self.as_map().remove(kv).contains_key(key) by {
                        if self.as_map().contains_key(key) {
                            let j = choose|j: int| self.has_key_at(key, j);
                            let oj = if j < ii { j } else { j + 1 };
                            assert(old_self.has_key_at(key, oj));
                            assert(old_self.entries@[oj].0@ != old_self.entries@[ii].0@);
                        }
                        if old_self.as_map().remove(kv).contains_key(key) {
                            let j = choose|j: int| old_self.has_key_at(key, j);
                            assert(j != ii);
                            let nj = if j < ii { j } else { j - 1 };
                            assert(self.has_key_at(key, nj));
                        }
                    }
                    assert forall|key: K::V| #![auto] self.as_map().contains_key(key) implies self.as_map()[key] == old_self.as_map().remove(kv)[key] by {
                        let j = choose|j: int| self.has_key_at(key, j);
                        self.lemma_position(key, j);
                        let oj = if j < ii { j } else { j + 1 };
                        assert(old_self.has_key_at(key, oj));
                        old_self.lemma_position(key, oj);
                    }
                    assert(self.as_map() =~= old_self.as_map().remove(kv));
                }
                Some(v)
            },
            None => {
                proof {
                    assert(old_self.as_map() =~= old_self.as_map().remove(kv));
                }
                None
            },
        }
    }

    /// A copy of every key, in the map's order.
    pub fn keys(&self) -> (keys: Vec<K>)
        ensures
            keys@.len() == self.key_seq().len(),
            keys@.map_values(|k: K| k@) == self.key_seq(),
            self.key_seq().no_duplicates(),
            self.key_seq().to_set() == self@.dom(),
            self@.dom().finite(),
            keys@.len() == self@.dom().len(),
    {
        proof {
            use_type_invariant(self);
            self.lemma_dom();
        }
        let mut keys: Vec<K> = Vec::new();
        let mut i: usize = 0;
        while i < self.entries.len()
            invariant
                0 <= i <= self.entries@.len(),
                keys@.len() == i,
                forall|j: int| 0 <= j < i ==> #[trigger] keys@[j]@ == self.key_seq()[j],
            decreases self.entries@.len() - i,
        {
            keys.push(self.entries[i].0.key_clone());
            i = i + 1;
        }
        assert(keys@.map_values(|k: K| k@) =~= self.key_seq());
        keys
    }
}

impl<K: StorageKey, V> View for KeyedMap<K, V> {
    type V = Map<K::V, V>;

    open spec fn view(&self) -> Map<K::V, V> {
        self.as_map()
    }
}

/// The inner map stored under `k` in a map of maps (empty when there is none).
pub open spec fn inner_of<K2: StorageKey, V, K1>(outer: Map<K1, KeyedMap<K2, V>>, k: K1) -> Map<K2::V, V> {
    if outer.contains_key(k) { outer[k]@ } else { Map::empty() }
}

/// Insert `v` under `k2` in the inner map stored under `k1`.
pub fn nested_insert<K1: StorageKey, K2: StorageKey, V>(
    outer: &mut KeyedMap<K1, KeyedMap<K2, V>>,
    k1: &K1,
    k2: K2,
    v: V,
)
    ensures
        inner_of(final(outer)@, k1@) == inner_of(old(outer)@, k1@).insert(k2@, v),
        final(outer)@.remove(k1@) == old(outer)@.remove(k1@),
        final(outer)@.contains_key(k1@),
{
    let ghost k2v = k2@;
    let mut inner = match outer.remove(k1) {
        Some(m) => m,
        None => KeyedMap::new(),
    };
    inner.insert(k2, v);
    outer.insert(k1.key_clone(), inner);
    assert(final(outer)@.remove(k1@) =~= old(outer)@.remove(k1@));
}

/// Remove `k2` from the inner map stored under `k1`.
pub fn nested_remove<K1: StorageKey, K2: StorageKey, V>(
    outer: &mut KeyedMap<K1, KeyedMap<K2, V>>,
    k1: &K1,
    k2: &K2,
)
    ensures
        inner_of(final(outer)@, k1@) == inner_of(old(outer)@, k1@).remove(k2@),
        final(outer)@.remove(k1@) == old(outer)@.remove(k1@),
{
    match outer.remove(k1) {
        Some(mut inner) => {
            inner.remove(k2);
            outer.insert(k1.key_clone(), inner);
            assert(final(outer)@.remove(k1@) =~= old(outer)@.remove(k1@));
        },
        None => {
            assert(inner_of(old(outer)@, k1@) =~= inner_of(old(outer)@, k1@).remove(k2@));
            assert(final(outer)@ =~= old(outer)@);
        },
    }
}

/// The value stored under `k2` in the inner map under `k1`.
pub fn nested_get<'a, K1: StorageKey, K2: StorageKey, V>(
    outer: &'a KeyedMap<K1, KeyedMap<K2, V>>,
    k1: &K1,
    k2: &K2,
) -> (value: Option<&'a V>)
    ensures
        match value {
            Some(v) => inner_of(outer@, k1@).contains_key(k2@) && *v == inner_of(outer@, k1@)[k2@],
            None => !inner_of(outer@, k1@).contains_key(k2@),
        },
{
    match outer.get(k1) {
        Some(inner) => inner.get(k2),
        None => None,
    }
}

/// The number of keys of the inner map under `k1`.
pub fn nested_len<K1: StorageKey, K2: StorageKey, V>(outer: &KeyedMap<K1, KeyedMap<K2, V>>, k1: &K1) -> (n: usize)
    ensures
        n == inner_of(outer@, k1@).dom().len(),
{
    match outer.get(k1) {
        Some(inner) => inner.len(),
        None => 0,
    }
}

/// Two stores that agree but on `p` give the same inner map for every other key.
pub proof fn lemma_inner_removed<K2: StorageKey, V, K1>(a: Map<K1, KeyedMap<K2, V>>, b: Map<K1, KeyedMap<K2, V>>, p: K1, q: K1)
    requires
        a.remove(p) == b.remove(p),
        q != p,
    ensures
        inner_of(a, q) == inner_of(b, q),
{
    assert(a.remove(p).contains_key(q) == a.contains_key(q));
    assert(b.remove(p).contains_key(q) == b.contains_key(q));
    if a.contains_key(q) {
        assert(a[q] == a.remove(p)[q]);
        assert(b[q] == b.remove(p)[q]);
    }
}

/// Two maps that agree but on `p` agree on every other key.
pub proof fn lemma_value_removed<K, V>(a: Map<K, V>, b: Map<K, V>, p: K, q: K)
    requires
        a.remove(p) == b.remove(p),
        q != p,
    ensures
        a.contains_key(q) == b.contains_key(q),
        a.contains_key(q) ==> a[q] == b[q],
{
    assert(a.remove(p).contains_key(q) == a.contains_key(q));
    assert(b.remove(p).contains_key(q) == b.contains_key(q));
    if a.contains_key(q) {
        assert(a[q] == a.remove(p)[q]);
        assert(b[q] == b.remove(p)[q]);
    }
}

} // verus!
