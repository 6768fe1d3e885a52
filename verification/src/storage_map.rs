//! A map that walks its keys in the order of their storage keys, as the runtime's store does
//! for a map hashed with `Blake2_128Concat`: the BLAKE2b-128 digest of the key's SCALE encoding,
//! followed by the encoding itself, compared byte by byte.
use vstd::prelude::*;
use crate::byte_order::{
    KeyPosition, compare_keys, lemma_lex_lt_asymmetric, lemma_lex_lt_total, lemma_lex_lt_transitive, lex_lt,
};
use crate::hashing::{blake2_128, blake2_128_digest};
use crate::keyed_map::{KeyedMap, StorageKey};
use crate::scale::{append_bytes, copy_all, le4, scale_encode_u32};

verus! {

/// Keys that the store files under their SCALE encoding.
pub trait WalkKey: StorageKey {
    /// The SCALE encoding of a key.
    spec fn encoding_of(v: Self::V) -> Seq<u8>;

    /// Encode a key.
    fn encode_key(&self) -> (e: Vec<u8>)
        ensures
            e@ == Self::encoding_of(self@),
    ;

    /// Different keys have different encodings.
    proof fn lemma_encoding_injective(a: Self::V, b: Self::V)
        requires
            Self::encoding_of(a) == Self::encoding_of(b),
        ensures
            a == b,
    ;
}

/// The storage key of an encoded key: its BLAKE2b-128 digest, then the encoding.
pub open spec fn hashed_key(enc: Seq<u8>) -> Seq<u8> {
    blake2_128_digest(enc) + enc
}

/// The storage key of a key.
pub open spec fn walk_key<K: WalkKey>(k: K::V) -> Seq<u8> {
    hashed_key(K::encoding_of(k))
}

/// Keys in the order in which the store walks them.
pub open spec fn in_walk_order<K: WalkKey>(s: Seq<K::V>) -> bool {
    forall|i: int, j: int| 0 <= i < j < s.len() ==> lex_lt(#[trigger] walk_key::<K>(s[i]), #[trigger] walk_key::<K>(s[j]))
}

/// The storage key of a key, computed.
fn storage_key_of<K: WalkKey>(k: &K) -> (key: Vec<u8>)
    ensures
        key@ == walk_key::<K>(k@),
        blake2_128_digest(K::encoding_of(k@)).len() == 16,
{
    let enc = k.encode_key();
    let digest = blake2_128(enc.as_slice());
    let mut key: Vec<u8> = Vec::new();
    append_bytes(&mut key, digest.as_slice());
    append_bytes(&mut key, enc.as_slice());
    key
}

/// Keys with 16-byte digests and equal storage keys are equal.
proof fn lemma_walk_key_injective<K: WalkKey>(a: K::V, b: K::V)
    requires
        blake2_128_digest(K::encoding_of(a)).len() == 16,
        blake2_128_digest(K::encoding_of(b)).len() == 16,
        walk_key::<K>(a) == walk_key::<K>(b),
    ensures
        a == b,
{
    let wa = walk_key::<K>(a);
    let wb = walk_key::<K>(b);
    assert(wa.subrange(16, wa.len() as int) =~= K::encoding_of(a));
    assert(wb.subrange(16, wb.len() as int) =~= K::encoding_of(b));
    K::lemma_encoding_injective(a, b);
}

/// A map that walks its keys in storage-key order.
#[derive(Debug)]
pub struct StorageMap<K: WalkKey, V> {
    map: KeyedMap<K, V>,
    order: Vec<(Vec<u8>, K)>,
}

impl<K: WalkKey, V> StorageMap<K, V> {
    /// The keys, in the order in which the store walks them.
    pub closed spec fn key_seq(self) -> Seq<K::V> {
        Seq::new(self.order@.len(), |i: int| self.order@[i].1@)
    }

    #[verifier::type_invariant]
    closed spec fn ordered(self) -> bool {
        &&& self.key_seq().no_duplicates()
        &&& self.key_seq().to_set() == self.map@.dom()
        &&& forall|i: int| 0 <= i < self.order@.len() ==> {
            &&& (#[trigger] self.order@[i]).0@ == walk_key::<K>(self.order@[i].1@)
            &&& blake2_128_digest(K::encoding_of(self.order@[i].1@)).len() == 16
        }
        &&& forall|i: int, j: int| 0 <= i < j < self.order@.len()
            ==> lex_lt(#[trigger] self.order@[i].0@, #[trigger] self.order@[j].0@)
    }

    /// The map that the entries stand for.
    pub closed spec fn as_map(self) -> Map<K::V, V> {
        self.map@
    }

    /// The keys are those of the map, each once, in the order in which the store walks them.
    pub open spec fn walk_wf(self) -> bool {
        &&& self.key_seq().no_duplicates()
        &&& self.key_seq().to_set() == self@.dom()
        &&& in_walk_order::<K>(self.key_seq())
    }

    proof fn lemma_walk_wf(self)
        requires
            self.ordered(),
        ensures
            self.walk_wf(),
    {
        assert forall|i: int, j: int| 0 <= i < j < self.key_seq().len()
            implies lex_lt(#[trigger] walk_key::<K>(self.key_seq()[i]), #[trigger] walk_key::<K>(self.key_seq()[j])) by {
            assert(self.order@[i].0@ == walk_key::<K>(self.order@[i].1@));
            assert(self.order@[j].0@ == walk_key::<K>(self.order@[j].1@));
        }
    }

    /// An empty map.
    pub fn new() -> (map: Self)
        ensures
            map@ == Map::<K::V, V>::empty(),
            map.walk_wf(),
    {
        let m: KeyedMap<K, V> = KeyedMap::new();
        let o: Vec<(Vec<u8>, K)> = Vec::new();
        assert(Seq::new(o@.len(), |i: int| o@[i].1@).to_set() =~= m@.dom());
        let map = StorageMap { map: m, order: o };
        proof {
            use_type_invariant(&map);
            map.lemma_walk_wf();
        }
        map
    }

    /// The number of keys in the map.
    pub fn len(&self) -> (n: usize)
        ensures
            n == self@.dom().len(),
            self@.dom().finite(),
    {
        self.map.len()
    }

    pub fn contains_key(&self, k: &K) -> (present: bool)
        ensures
            present == self@.contains_key(k@),
    {
        self.map.contains_key(k)
    }

    pub fn get(&self, k: &K) -> (value: Option<&V>)
        ensures
            match value {
                Some(v) => self@.contains_key(k@) && *v == self@[k@],
                None => !self@.contains_key(k@),
            },
    {
        self.map.get(k)
    }

    /// The position at which a new storage key goes.
    fn position_for(order: &Vec<(Vec<u8>, K)>, key: &Vec<u8>) -> (p: usize)
        ensures
            p <= order@.len(),
            forall|i: int| 0 <= i < p ==> !lex_lt(key@, #[trigger] order@[i].0@),
            p < order@.len() ==> lex_lt(key@, order@[p as int].0@),
    {
        let mut i: usize = 0;
        while i < order.len()
            invariant
                0 <= i <= order@.len(),
                forall|j: int| 0 <= j < i ==> !lex_lt(key@, #[trigger] order@[j].0@),
            decreases order@.len() - i,
        {
            match compare_keys(key.as_slice(), order[i].0.as_slice()) {
                KeyPosition::Before => {
                    return i;
                },
                _ => {},
            }
            i = i + 1;
        }
        i
    }

    /// Insert or overwrite the value of a key.
    pub fn insert(&mut self, k: K, v: V)
        ensures
            final(self)@ == old(self)@.insert(k@, v),
            final(self).walk_wf(),
    {
        proof {
            use_type_invariant(&*self);
        }
        let mut taken = StorageMap::new();
        std::mem::swap(self, &mut taken);
        proof {
            use_type_invariant(&taken);
        }
        let ghost old_map = taken.map@;
        let ghost old_keys = taken.key_seq();
        let StorageMap { mut map, mut order } = taken;
        if map.contains_key(&k) {
            map.insert(k, v);
            proof {
                assert(Seq::new(order@.len(), |i: int| order@[i].1@) =~= old_keys);
                assert(old_map.dom().insert(k@) =~= old_map.dom());
            }
            *self = StorageMap { map, order };
            proof {
                use_type_invariant(&*self);
                self.lemma_walk_wf();
            }
        } else {
            let key = storage_key_of(&k);
            let p = Self::position_for(&order, &key);
            let ghost kv = k@;
            let ghost old_order = order@;
            let copy = k.key_clone();
            order.insert(p, (key, copy));
            map.insert(k, v);
            proof {
                assert forall|i: int| 0 <= i < old_order.len() implies old_order[i].1@ != kv by {
                    assert(old_keys[i] == old_order[i].1@);
                    assert(old_keys.to_set().contains(old_keys[i]));
                }
                assert forall|i: int| 0 <= i < p implies lex_lt(#[trigger] old_order[i].0@, key@) by {
                    if old_order[i].0@ == key@ {
                        lemma_walk_key_injective::<K>(old_order[i].1@, kv);
                    }
                    lemma_lex_lt_total(old_order[i].0@, key@);
                }
                assert forall|i: int| p <= i < old_order.len() implies lex_lt(key@, #[trigger] old_order[i].0@) by {
                    if i > p {
                        lemma_lex_lt_transitive(key@, old_order[p as int].0@, old_order[i].0@);
                    }
                }
                let new_keys = Seq::new(order@.len(), |i: int| order@[i].1@);
                assert(new_keys =~= old_keys.insert(p as int, kv));
                assert forall|i: int, j: int| 0 <= i < j < order@.len()
                    implies lex_lt(#[trigger] order@[i].0@, #[trigger] order@[j].0@) by {
                    if j < p {
                    } else if j == p {
                        assert(order@[j].0@ == key@);
                    } else if i < p {
                        assert(order@[j] == old_order[j - 1]);
                        lemma_lex_lt_transitive(old_order[i].0@, key@, old_order[j - 1].0@);
                    } else if i == p {
                        assert(order@[j] == old_order[j - 1]);
                    } else {
                        assert(order@[i] == old_order[i - 1]);
                        assert(order@[j] == old_order[j - 1]);
                    }
                }
                assert forall|i: int, j: int| 0 <= i < j < new_keys.len() implies new_keys[i] != new_keys[j] by {
                    lemma_lex_lt_asymmetric(order@[i].0@, order@[j].0@);
                }
                assert(new_keys.to_set() =~= map@.dom()) by {
                    assert forall|x: K::V| new_keys.to_set().contains(x) <==> map@.dom().contains(x) by {
                        if new_keys.to_set().contains(x) {
                            let j = choose|j: int| 0 <= j < new_keys.len() && new_keys[j] == x;
                            if j < p {
                                assert(old_keys[j] == x);
                                assert(old_keys.to_set().contains(x));
                            } else if j > p {
                                assert(old_keys[j - 1] == x);
                                assert(old_keys.to_set().contains(x));
                            }
                        }
                        if map@.dom().contains(x) && x != kv {
                            assert(old_keys.to_set().contains(x));
                            let j = choose|j: int| 0 <= j < old_keys.len() && old_keys[j] == x;
                            if j < p {
                                assert(new_keys[j] == x);
                            } else {
                                assert(new_keys[j + 1] == x);
                            }
                        }
                        if x == kv {
                            assert(new_keys[p as int] == x);
                        }
                    }
                }
            }
            *self = StorageMap { map, order };
            proof {
                use_type_invariant(&*self);
                self.lemma_walk_wf();
            }
        }
    }

    /// The position of a key in the walk order, if it is there.
    fn index_of(order: &Vec<(Vec<u8>, K)>, k: &K) -> (found: Option<usize>)
        ensures
            match found {
                Some(i) => i < order@.len() && order@[i as int].1@ == k@,
                None => forall|j: int| 0 <= j < order@.len() ==> order@[j].1@ != k@,
            },
    {
        let mut i: usize = 0;
        while i < order.len()
            invariant
                0 <= i <= order@.len(),
                forall|j: int| 0 <= j < i ==> order@[j].1@ != k@,
            decreases order@.len() - i,
        {
            if order[i].1.key_eq(k) {
                return Some(i);
            }
            i = i + 1;
        }
        None
    }

    /// Remove a key and hand back its value, if it was present.
    pub fn remove(&mut self, k: &K) -> (value: Option<V>)
        ensures
            final(self)@ == old(self)@.remove(k@),
            final(self).walk_wf(),
            match value {
                Some(v) => old(self)@.contains_key(k@) && v == old(self)@[k@],
                None => !old(self)@.contains_key(k@),
            },
    {
        proof {
            use_type_invariant(&*self);
        }
        let mut taken = StorageMap::new();
        std::mem::swap(self, &mut taken);
        proof {
            use_type_invariant(&taken);
        }
        let ghost old_keys = taken.key_seq();
        let StorageMap { mut map, mut order } = taken;
        let ghost old_order = order@;
        let value = map.remove(k);
        let found = Self::index_of(&order, k);
        let i: usize = match found {
            Some(j) => j,
            None => order.len(),
        };
        if i < order.len() {
            order.remove(i);
        }
        proof {
            let new_keys = Seq::new(order@.len(), |j: int| order@[j].1@);
            if i < old_order.len() {
                assert(new_keys =~= old_keys.remove(i as int));
            } else {
                assert(new_keys =~= old_keys);
            }
            assert forall|a: int, b: int| 0 <= a < b < order@.len()
                implies lex_lt(#[trigger] order@[a].0@, #[trigger] order@[b].0@) by {
                if i < old_order.len() {
                    let oa = if a < i { a } else { a + 1 };
                    let ob = if b < i { b } else { b + 1 };
                    assert(order@[a] == old_order[oa]);
                    assert(order@[b] == old_order[ob]);
                }
            }
            assert forall|a: int, b: int| 0 <= a < b < new_keys.len() implies new_keys[a] != new_keys[b] by {
                lemma_lex_lt_asymmetric(order@[a].0@, order@[b].0@);
            }
            assert forall|x: K::V| new_keys.to_set().contains(x) <==> map@.dom().contains(x) by {
                if new_keys.to_set().contains(x) {
                    let j = choose|j: int| 0 <= j < new_keys.len() && new_keys[j] == x;
                    let oj = if i < old_order.len() && j >= i { j + 1 } else { j };
                    assert(old_keys[oj] == x);
                    assert(old_keys.to_set().contains(x));
                    if i < old_order.len() {
                        assert(old_keys[i as int] == k@);
                        assert(oj != i);
                    }
                }
                if map@.dom().contains(x) {
                    assert(old_keys.to_set().contains(x));
                    let j = choose|j: int| 0 <= j < old_keys.len() && old_keys[j] == x;
                    if i < old_order.len() {
                        assert(j != i);
                        if j < i {
                            assert(new_keys[j] == x);
                        } else {
                            assert(new_keys[j - 1] == x);
                        }
                    } else {
                        assert(new_keys[j] == x);
                    }
                }
            }
            assert(new_keys.to_set() =~= map@.dom());
        }
        *self = StorageMap { map, order };
        proof {
            use_type_invariant(&*self);
            self.lemma_walk_wf();
        }
        value
    }

    /// A copy of every key, in the order in which the store walks them.
    pub fn keys(&self) -> (keys: Vec<K>)
        ensures
            keys@.map_values(|k: K| k@) == self.key_seq(),
            self.key_seq().no_duplicates(),
            self.key_seq().to_set() == self@.dom(),
            in_walk_order::<K>(self.key_seq()),
            self@.dom().finite(),
            keys@.len() == self@.dom().len(),
    {
        proof {
            use_type_invariant(self);
            self.key_seq().unique_seq_to_set();
            vstd::seq_lib::seq_to_set_is_finite(self.key_seq());
            assert forall|i: int, j: int| 0 <= i < j < self.key_seq().len()
                implies lex_lt(#[trigger] walk_key::<K>(self.key_seq()[i]), #[trigger] walk_key::<K>(self.key_seq()[j])) by {
                assert(self.order@[i].0@ == walk_key::<K>(self.order@[i].1@));
                assert(self.order@[j].0@ == walk_key::<K>(self.order@[j].1@));
            }
        }
        let mut keys: Vec<K> = Vec::new();
        let mut i: usize = 0;
        while i < self.order.len()
            invariant
                0 <= i <= self.order@.len(),
                keys@.len() == i,
                forall|j: int| 0 <= j < i ==> #[trigger] keys@[j]@ == self.key_seq()[j],
            decreases self.order@.len() - i,
        {
            keys.push(self.order[i].1.key_clone());
            i = i + 1;
        }
        assert(keys@.map_values(|k: K| k@) =~= self.key_seq());
        keys
    }
}

impl<K: WalkKey, V> View for StorageMap<K, V> {
    type V = Map<K::V, V>;

    open spec fn view(&self) -> Map<K::V, V> {
        self.as_map()
    }
}

impl WalkKey for u32 {
    open spec fn encoding_of(v: u32) -> Seq<u8> {
        le4(v as nat)
    }

    fn encode_key(&self) -> (e: Vec<u8>) {
        scale_encode_u32(*self)
    }

    proof fn lemma_encoding_injective(a: u32, b: u32) {
        assert(a == (a % 256) + 256 * ((a / 0x100) % 256) + 0x1_0000 * ((a / 0x1_0000) % 256)
            + 0x100_0000 * ((a / 0x100_0000) % 256)) by (nonlinear_arith);
        assert(b == (b % 256) + 256 * ((b / 0x100) % 256) + 0x1_0000 * ((b / 0x1_0000) % 256)
            + 0x100_0000 * ((b / 0x100_0000) % 256)) by (nonlinear_arith);
        assert(le4(a as nat)[0] == le4(b as nat)[0]);
        assert(le4(a as nat)[1] == le4(b as nat)[1]);
        assert(le4(a as nat)[2] == le4(b as nat)[2]);
        assert(le4(a as nat)[3] == le4(b as nat)[3]);
    }
}

impl WalkKey for [u8; 32] {
    open spec fn encoding_of(v: Seq<u8>) -> Seq<u8> {
        v
    }

    fn encode_key(&self) -> (e: Vec<u8>) {
        copy_all(self.as_slice())
    }

    proof fn lemma_encoding_injective(a: Seq<u8>, b: Seq<u8>) {
    }
}

} // verus!
