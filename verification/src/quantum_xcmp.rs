//! Quantum-secure cross-chain message passing: the pallet's channels, keys and outbound queue,
//! and every call that changes them.
use vstd::prelude::*;
use crate::bridge_core::utils::thrice_nested;
use crate::hashing::{blake3_digest, blake3_hash};
use crate::keyed_map::{KeyedMap, StorageKey};
use crate::storage_map::{StorageMap, in_walk_order};
use crate::quantum_channel::{
    MessageSendError, ParaId, QuantumChannelInfo, QuantumChannelKey, QuantumChannelStatus,
    QuantumProtocol, QuantumSecureXcmpMessage, QuantumXcmpMessageHandler, entropy_from_state_bytes,
};
use crate::quantum_cipher::{decrypt_with_quantum_key, encrypt_spec, encrypt_with_quantum_key};
use crate::runtime::{DispatchError, Origin, ensure_root, ensure_signed};
use crate::scale::{append_bytes, copy_all, copy_range, ix, len_as_u32, len_u32};
use crate::weights::Weight;

verus! {

/// Errors of the quantum XCMP pallet.
#[derive(Clone, Copy, Debug, PartialEq, Eq, Structural)]
pub enum Error {
    /// The quantum channel does not exist.
    QuantumChannelNotFound,
    /// The quantum channel is not ready.
    QuantumChannelNotReady,
    /// No quantum keys available for the channel.
    NoQuantumKeysAvailable,
    /// Message is too large for the quantum channel.
    MessageTooLarge,
    /// Failed to send message to the destination parachain.
    MessageSendFailed,
    /// Maximum number of keys per channel reached.
    MaxKeysPerChannelReached,
    /// Failed to generate quantum entropy.
    QuantumEntropyGenerationFailed,
}

/// Events of the quantum XCMP pallet.
#[derive(Clone, Copy, Debug, PartialEq, Eq, Structural)]
pub enum Event {
    /// A quantum channel has been established with another parachain.
    QuantumChannelEstablished { para_id: ParaId, status: QuantumChannelStatus },
    /// A new quantum key has been generated.
    QuantumKeyGenerated { para_id: ParaId, protocol: QuantumProtocol },
    /// A quantum-secure message has been sent.
    QuantumMessageSent { para_id: ParaId, message_size: u32 },
    /// A quantum-secure message has been received.
    QuantumMessageReceived { from_para_id: ParaId, message_size: u32 },
}

/// Weight functions of the pallet's calls.
pub trait WeightInfo {
    fn establish_quantum_channel() -> Weight;
    fn generate_quantum_key() -> Weight;
    fn send_quantum_message(s: u32) -> Weight;
}

/// The default weights.
impl WeightInfo for () {
    fn establish_quantum_channel() -> (w: Weight)
        ensures
            w == (Weight { ref_time: 10_000_000, proof_size: 0 }),
    {
        Weight::from_parts(10_000_000, 0)
    }

    fn generate_quantum_key() -> (w: Weight)
        ensures
            w == (Weight { ref_time: 20_000_000, proof_size: 0 }),
    {
        Weight::from_parts(20_000_000, 0)
    }

    fn send_quantum_message(s: u32) -> (w: Weight)
        ensures
            w == (Weight { ref_time: 15_000_000, proof_size: 0 }),
    {
        Weight::from_parts(15_000_000, 0)
    }
}

/// The default delivery fee factor: one, as a fixed-point number with 18 decimals.
#[allow(non_snake_case)]
pub fn InitialFeeFactor() -> (factor: u128)
    ensures
        factor == 1_000_000_000_000_000_000u128,
{
    1_000_000_000_000_000_000u128
}

/// A key that was derived from the given state bytes: its material is their thrice-nested
/// transformation, its id that material's BLAKE3 digest, its signature the first 32 bytes of it.
pub open spec fn key_from_state(key: QuantumChannelKey, state_bytes: Seq<u8>, protocol: QuantumProtocol) -> bool {
    let material = thrice_nested(state_bytes);
    &&& key.key_material@ == material
    &&& key.id@ == blake3_digest(material)
    &&& key.quantum_signature@ == material.subrange(0, 32)
    &&& key.protocol == protocol
}

/// Two keys with the same id, material, protocol and signature.
pub open spec fn same_key(a: QuantumChannelKey, b: QuantumChannelKey) -> bool {
    a.id@ == b.id@ && a.key_material@ == b.key_material@ && a.protocol == b.protocol
        && a.quantum_signature@ == b.quantum_signature@
}

/// The tag that authenticates an encrypted message under a key: BLAKE3 of the encrypted bytes
/// followed by the key material.
pub open spec fn quantum_tag(encrypted: Seq<u8>, material: Seq<u8>) -> Seq<u8> {
    blake3_digest(encrypted + material)
}

/// A channel record after a key was stored for it: it counts one more key if the key is new to
/// the channel (`fresh`; a key stored under the same id is replaced and counted once), and a
/// channel that was establishing keys becomes ready.
pub open spec fn with_new_key(info: QuantumChannelInfo, fresh: bool) -> QuantumChannelInfo {
    QuantumChannelInfo {
        available_keys: if fresh { (info.available_keys + 1) as u32 } else { info.available_keys },
        status: if info.status == QuantumChannelStatus::EstablishingKeys { QuantumChannelStatus::Ready } else { info.status },
        ..info
    }
}

/// A channel record with one key fewer (never below zero).
pub open spec fn with_key_used(info: QuantumChannelInfo) -> QuantumChannelInfo {
    QuantumChannelInfo {
        available_keys: if info.available_keys == 0 { 0 } else { (info.available_keys - 1) as u32 },
        ..info
    }
}

/// The keys of a channel in a key store.
pub open spec fn keys_in(store: Map<ParaId, StorageMap<[u8; 32], QuantumChannelKey>>, para: ParaId) -> Map<Seq<u8>, QuantumChannelKey> {
    if store.contains_key(para) { store[para]@ } else { Map::empty() }
}

/// Every key of a key store is filed under its own id and has at least 32 bytes of material,
/// and each channel's keys are kept in the order in which the store walks them.
pub closed spec fn keys_wf(store: Map<ParaId, StorageMap<[u8; 32], QuantumChannelKey>>) -> bool {
    &&& forall|p: ParaId, id: Seq<u8>|
        #![trigger keys_in(store, p).contains_key(id)]
        keys_in(store, p).contains_key(id) ==> keys_in(store, p)[id].id@ == id
            && keys_in(store, p)[id].key_material@.len() >= 32
    &&& forall|p: ParaId| #[trigger] store.contains_key(p) ==> store[p].walk_wf()
}

/// The keys of a channel form a finite map with one entry per id in its walk order.
proof fn lemma_keys_finite(store: Map<ParaId, StorageMap<[u8; 32], QuantumChannelKey>>, para: ParaId)
    requires
        keys_wf(store),
    ensures
        keys_in(store, para).dom().finite(),
        keys_in(store, para).dom().len() == (if store.contains_key(para) { store[para].key_seq().len() } else { 0 }),
{
    if store.contains_key(para) {
        assert(store[para].walk_wf());
        store[para].key_seq().unique_seq_to_set();
        vstd::seq_lib::seq_to_set_is_finite(store[para].key_seq());
    } else {
        assert(keys_in(store, para).dom() =~= Set::<Seq<u8>>::empty());
    }
}

/// The encrypted payloads of a queue, in order.
pub open spec fn payloads(queue: Seq<QuantumSecureXcmpMessage>) -> Seq<Seq<u8>> {
    queue.map_values(|m: QuantumSecureXcmpMessage| m.encrypted_data@)
}

/// The payloads of the queues of the given parachains, one parachain after the other.
pub open spec fn payloads_in(order: Seq<ParaId>, queues: Map<ParaId, Vec<QuantumSecureXcmpMessage>>) -> Seq<Seq<u8>>
    decreases order.len(),
{
    if order.len() == 0 {
        Seq::empty()
    } else {
        payloads_in(order.drop_last(), queues) + payloads(queues[order.last()]@)
    }
}

/// The weight of sending `n` messages: 15 000 000 each, saturating.
pub open spec fn saturated_weight(n: nat) -> int {
    if n * 15_000_000 > u64::MAX { u64::MAX as int } else { (n * 15_000_000) as int }
}

/// The keys of a channel after keys were drawn from `state_bytes` (`drawn`): the key of those
/// bytes is filed under its id, the other keys stay; when none was drawn nothing changed.
pub open spec fn channel_keys_drawn(
    keys: Map<Seq<u8>, QuantumChannelKey>,
    before: Map<Seq<u8>, QuantumChannelKey>,
    drawn: bool,
    state_bytes: Seq<u8>,
) -> bool {
    let id = blake3_digest(thrice_nested(state_bytes));
    if drawn {
        &&& keys.remove(id) == before.remove(id)
        &&& keys.contains_key(id)
        &&& key_from_state(keys[id], state_bytes, QuantumProtocol::ThriceNestedStereo)
    } else {
        keys == before
    }
}

/// The storage of the quantum XCMP pallet.
pub struct QuantumMessaging {
    max_quantum_message_size: u32,
    max_keys_per_channel: u32,
    channels: StorageMap<ParaId, QuantumChannelInfo>,
    keys: KeyedMap<ParaId, StorageMap<[u8; 32], QuantumChannelKey>>,
    outbound: StorageMap<ParaId, Vec<QuantumSecureXcmpMessage>>,
    delivery_fee_factor: u128,
    events: Vec<Event>,
}

impl QuantumMessaging {
    /// The largest message a channel may be opened for.
    pub closed spec fn max_message(&self) -> u32 {
        self.max_quantum_message_size
    }

    /// The most keys a channel may hold.
    pub closed spec fn max_keys(&self) -> u32 {
        self.max_keys_per_channel
    }

    /// The channel records, by parachain.
    pub closed spec fn channels(&self) -> Map<ParaId, QuantumChannelInfo> {
        self.channels@
    }

    /// The keys of a channel, by key id.
    pub open spec fn keys_of(&self, para: ParaId) -> Map<Seq<u8>, QuantumChannelKey> {
        keys_in(self.key_store(), para)
    }

    /// The ids of a channel's keys, in the order in which the store walks them.
    pub open spec fn key_order(&self, para: ParaId) -> Seq<Seq<u8>> {
        if self.key_store().contains_key(para) { self.key_store()[para].key_seq() } else { Seq::empty() }
    }

    /// The messages queued for a parachain.
    pub closed spec fn outbound_of(&self, para: ParaId) -> Seq<QuantumSecureXcmpMessage> {
        if self.outbound@.contains_key(para) { self.outbound@[para]@ } else { Seq::empty() }
    }

    /// All stored keys, by parachain.
    pub closed spec fn key_store(&self) -> Map<ParaId, StorageMap<[u8; 32], QuantumChannelKey>> {
        self.keys@
    }

    /// All queues, by parachain.
    pub closed spec fn queues(&self) -> Map<ParaId, Vec<QuantumSecureXcmpMessage>> {
        self.outbound@
    }

    /// The parachains with a queue, in the order in which the store walks them.
    pub closed spec fn queue_order(&self) -> Seq<ParaId> {
        self.outbound.key_seq()
    }

    /// The payloads of every queue, parachain after parachain in the order in which the store
    /// walks them.
    pub closed spec fn queued_payloads(&self) -> Seq<Seq<u8>> {
        payloads_in(self.queue_order(), self.outbound@)
    }

    /// The delivery fee factor.
    pub closed spec fn fee_factor(&self) -> u128 {
        self.delivery_fee_factor
    }

    /// The parachains with a queue.
    pub closed spec fn outbound_paras(&self) -> Set<ParaId> {
        self.outbound@.dom()
    }

    /// The events emitted so far.
    pub closed spec fn events(&self) -> Seq<Event> {
        self.events@
    }

    /// Every stored key is filed under its own id and has at least 32 bytes of material, and
    /// each store keeps its walk order.
    closed spec fn store_wf(&self) -> bool {
        &&& keys_wf(self.keys@)
        &&& self.channels.walk_wf()
        &&& self.outbound.walk_wf()
    }

    /// The stores are consistent, and each channel's record counts exactly the keys stored for
    /// it; no keys are stored for a parachain without a channel.
    pub closed spec fn wf(&self) -> bool {
        &&& self.store_wf()
        &&& forall|p: ParaId| #![trigger keys_in(self.keys@, p)]
            keys_in(self.keys@, p).dom().len() == (if self.channels@.contains_key(p) { self.channels@[p].available_keys as nat } else { 0 })
    }

    /// The keys of every channel other than `para` are the same in both states.
    pub open spec fn other_keys_unchanged(&self, other: &QuantumMessaging, para: ParaId) -> bool {
        self.key_store().remove(para) == other.key_store().remove(para)
    }

    /// A channel's record counts exactly the keys stored for it (a finite set), and no keys
    /// are stored for a parachain without a channel.
    pub proof fn lemma_available_keys(&self, para: ParaId)
        requires
            self.wf(),
        ensures
            self.keys_of(para).dom().finite(),
            self.keys_of(para).dom().len() == self.key_order(para).len(),
            self.channels().contains_key(para) ==> self.channels()[para].available_keys == self.keys_of(para).dom().len(),
            !self.channels().contains_key(para) ==> self.keys_of(para) == Map::<Seq<u8>, QuantumChannelKey>::empty(),
    {
        lemma_keys_finite(self.keys@, para);
        assert(keys_in(self.keys@, para).dom().len() >= 0);
        if !self.channels().contains_key(para) {
            assert(self.keys_of(para).dom() =~= Set::<Seq<u8>>::empty());
            assert(self.keys_of(para) =~= Map::<Seq<u8>, QuantumChannelKey>::empty());
        }
    }

    /// An empty pallet storage with the given limits.
    pub fn new(max_quantum_message_size: u32, max_keys_per_channel: u32) -> (s: QuantumMessaging)
        ensures
            s.wf(),
            s.max_message() == max_quantum_message_size,
            s.max_keys() == max_keys_per_channel,
            s.channels() == Map::<ParaId, QuantumChannelInfo>::empty(),
            forall|p: ParaId| s.keys_of(p) == Map::<Seq<u8>, QuantumChannelKey>::empty(),
            forall|p: ParaId| s.outbound_of(p).len() == 0,
            s.events().len() == 0,
            s.fee_factor() == 1_000_000_000_000_000_000u128,
    {
        QuantumMessaging {
            max_quantum_message_size,
            max_keys_per_channel,
            channels: StorageMap::new(),
            keys: KeyedMap::new(),
            outbound: StorageMap::new(),
            delivery_fee_factor: InitialFeeFactor(),
            events: Vec::new(),
        }
    }

    /// The stored record of a channel.
    pub fn channel(&self, para: ParaId) -> (info: Option<QuantumChannelInfo>)
        ensures
            match info {
                Some(i) => self.channels().contains_key(para) && i == self.channels()[para],
                None => !self.channels().contains_key(para),
            },
    {
        match self.channels.get(&para) {
            Some(i) => Some(*i),
            None => None,
        }
    }

    /// The number of keys stored for a channel.
    pub fn key_count(&self, para: ParaId) -> (n: usize)
        ensures
            n == self.keys_of(para).dom().len(),
    {
        match self.keys.get(&para) {
            Some(inner) => inner.len(),
            None => 0,
        }
    }

    /// The messages queued for a parachain.
    pub fn outbound_messages(&self, para: ParaId) -> (messages: &[QuantumSecureXcmpMessage])
        ensures
            messages@ == self.outbound_of(para),
    {
        match self.outbound.get(&para) {
            Some(m) => m.as_slice(),
            None => &[],
        }
    }

    /// The events emitted so far.
    pub fn event_log(&self) -> (events: &[Event])
        ensures
            events@ == self.events(),
    {
        self.events.as_slice()
    }

    /// The current delivery fee factor (fixed point, 18 decimals).
    pub fn delivery_fee_factor(&self) -> (factor: u128)
        ensures
            factor == self.fee_factor(),
    {
        self.delivery_fee_factor
    }

    /// Removing a stored key of a channel and counting one key fewer for it keeps every count
    /// equal to the number of stored keys.
    proof fn lemma_count_after_use(&self, before: QuantumMessaging, para: ParaId, id: Seq<u8>)
        requires
            before.wf(),
            self.store_wf(),
            before.channels().contains_key(para),
            before.keys_of(para).contains_key(id),
            self.keys_of(para) == before.keys_of(para).remove(id),
            self.other_keys_unchanged(&before, para),
            self.channels() == before.channels().insert(para, with_key_used(before.channels()[para])),
        ensures
            self.wf(),
    {
        lemma_keys_finite(before.keys@, para);
        assert(self.keys_of(para).dom() =~= before.keys_of(para).dom().remove(id));
        assert forall|p: ParaId| #![trigger keys_in(self.keys@, p)]
            keys_in(self.keys@, p).dom().len() == (if self.channels@.contains_key(p) { self.channels@[p].available_keys as nat } else { 0 }) by {
            assert(keys_in(before.keys@, p).dom().len() == (if before.channels@.contains_key(p) { before.channels@[p].available_keys as nat } else { 0 }));
            if p != para {
                assert(self.keys@.remove(para).contains_key(p) == self.keys@.contains_key(p));
                assert(before.keys@.remove(para).contains_key(p) == before.keys@.contains_key(p));
                if self.keys@.contains_key(p) {
                    assert(self.keys@[p] == self.keys@.remove(para)[p]);
                }
                assert(keys_in(self.keys@, p) == keys_in(before.keys@, p));
            }
        }
    }

    /// A copy of a key with the same fields.
    fn copy_key(key: &QuantumChannelKey) -> (copy: QuantumChannelKey)
        ensures
            same_key(copy, *key),
    {
        let m = copy_all(key.key_material.as_slice());
        let s = copy_all(key.quantum_signature.as_slice());
        QuantumChannelKey { id: key.id, key_material: m, protocol: key.protocol, quantum_signature: s }
    }

    /// Store a key under its id in a channel's key map.
    fn store_key(&mut self, para: ParaId, key: QuantumChannelKey)
        requires
            old(self).store_wf(),
            key.key_material@.len() >= 32,
        ensures
            final(self).store_wf(),
            final(self).keys_of(para) == old(self).keys_of(para).insert(key.id@, key),
            final(self).other_keys_unchanged(old(self), para),
            final(self).channels() == old(self).channels(),
            final(self).queues() == old(self).queues(),
            final(self).events() == old(self).events(),
            final(self).max_message() == old(self).max_message(),
            final(self).max_keys() == old(self).max_keys(),
    {
        let ghost old_self = *self;
        let mut inner = match self.keys.remove(&para) {
            Some(m) => m,
            None => StorageMap::new(),
        };
        assert(inner@ == old_self.keys_of(para));
        inner.insert(key.id, key);
        self.keys.insert(para, inner);
        proof {
            assert(self.keys@.remove(para) =~= old_self.keys@.remove(para));
            assert forall|p: ParaId, id: Seq<u8>|
                #![trigger keys_in(self.keys@, p).contains_key(id)]
                keys_in(self.keys@, p).contains_key(id) implies keys_in(self.keys@, p)[id].id@ == id
                    && keys_in(self.keys@, p)[id].key_material@.len() >= 32 by {
                if p != para {
                    assert(self.keys@.remove(para).contains_key(p) == old_self.keys@.remove(para).contains_key(p));
                    assert(keys_in(old_self.keys@, p).contains_key(id));
                } else if id != key.id@ {
                    assert(keys_in(old_self.keys@, p).contains_key(id));
                }
            }
        }
    }

    /// Remove a key from a channel's key map.
    fn drop_key(&mut self, para: ParaId, id: [u8; 32])
        requires
            old(self).store_wf(),
        ensures
            final(self).store_wf(),
            final(self).keys_of(para) == old(self).keys_of(para).remove(id@),
            final(self).other_keys_unchanged(old(self), para),
            final(self).channels() == old(self).channels(),
            final(self).queues() == old(self).queues(),
            final(self).events() == old(self).events(),
            final(self).max_message() == old(self).max_message(),
            final(self).max_keys() == old(self).max_keys(),
    {
        let ghost old_self = *self;
        match self.keys.remove(&para) {
            Some(mut inner) => {
                inner.remove(&id);
                self.keys.insert(para, inner);
                proof {
                    assert(self.keys@.remove(para) =~= old_self.keys@.remove(para));
                    assert forall|p: ParaId, kid: Seq<u8>|
                        #![trigger keys_in(self.keys@, p).contains_key(kid)]
                        keys_in(self.keys@, p).contains_key(kid) implies keys_in(self.keys@, p)[kid].id@ == kid
                            && keys_in(self.keys@, p)[kid].key_material@.len() >= 32 by {
                        if p != para {
                            assert(self.keys@.remove(para).contains_key(p) == old_self.keys@.remove(para).contains_key(p));
                        }
                        assert(keys_in(old_self.keys@, p).contains_key(kid));
                    }
                }
            },
            None => {
                proof {
                    assert(old_self.keys_of(para) =~= old_self.keys_of(para).remove(id@));
                    assert(self.keys@ =~= old_self.keys@);
                }
            },
        }
    }

    /// Whether a key with the given id is stored for a channel.
    fn holds_key(&self, para: ParaId, id: &[u8; 32]) -> (held: bool)
        ensures
            held == self.keys_of(para).contains_key(id@),
    {
        match self.keys.get(&para) {
            Some(inner) => inner.contains_key(id),
            None => false,
        }
    }

    /// Generate a quantum key for a channel from the amplitude bytes of the protocol's quantum
    /// state (see `entropy_from_state_bytes`): the key is stored under its id (replacing a key
    /// with the same id), the channel counts one more key if the id is new to it and, if it was
    /// establishing keys, becomes ready. Fails if the channel does
    /// not exist, already holds the most keys, or the state gives no entropy. State bytes
    /// shorter than 32 but not empty are left out: the signature takes 32 bytes of entropy.
    pub fn do_generate_quantum_key(
        &mut self,
        para_id: ParaId,
        protocol: QuantumProtocol,
        state_bytes: &[u8],
    ) -> (result: Result<QuantumChannelKey, DispatchError<Error>>)
        requires
            old(self).wf(),
            state_bytes@.len() == 0 || state_bytes@.len() >= 32,
        ensures
            final(self).wf(),
            final(self).max_message() == old(self).max_message(),
            final(self).max_keys() == old(self).max_keys(),
            final(self).queues() == old(self).queues(),
            !old(self).channels().contains_key(para_id) ==> result == Err::<QuantumChannelKey, DispatchError<Error>>(DispatchError::Module(Error::QuantumChannelNotFound)),
            old(self).channels().contains_key(para_id) && old(self).channels()[para_id].available_keys >= old(self).max_keys()
                ==> result == Err::<QuantumChannelKey, DispatchError<Error>>(DispatchError::Module(Error::MaxKeysPerChannelReached)),
            old(self).channels().contains_key(para_id) && old(self).channels()[para_id].available_keys < old(self).max_keys()
                && state_bytes@.len() == 0
                ==> result == Err::<QuantumChannelKey, DispatchError<Error>>(DispatchError::Module(Error::QuantumEntropyGenerationFailed)),
            result is Err ==> final(self).channels() == old(self).channels()
                && final(self).key_store() == old(self).key_store() && final(self).events() == old(self).events(),
            result is Ok <==> (old(self).channels().contains_key(para_id)
                && old(self).channels()[para_id].available_keys < old(self).max_keys()
                && state_bytes@.len() > 0),
            result matches Ok(key) ==> {
                &&& key_from_state(key, state_bytes@, protocol)
                &&& final(self).channels() == old(self).channels().insert(para_id,
                    with_new_key(old(self).channels()[para_id], !old(self).keys_of(para_id).contains_key(key.id@)))
                &&& final(self).keys_of(para_id).remove(key.id@) == old(self).keys_of(para_id).remove(key.id@)
                &&& final(self).keys_of(para_id).contains_key(key.id@)
                &&& same_key(final(self).keys_of(para_id)[key.id@], key)
                &&& final(self).other_keys_unchanged(old(self), para_id)
                &&& final(self).events() == old(self).events().push(Event::QuantumKeyGenerated { para_id, protocol })
            },
    {
        let info = match self.channels.get(&para_id) {
            Some(i) => *i,
            None => { return Err(DispatchError::Module(Error::QuantumChannelNotFound)); },
        };
        if info.available_keys >= self.max_keys_per_channel {
            return Err(DispatchError::Module(Error::MaxKeysPerChannelReached));
        }
        let raw = copy_all(state_bytes);
        let entropy = entropy_from_state_bytes(raw);
        if entropy.len() == 0 {
            return Err(DispatchError::Module(Error::QuantumEntropyGenerationFailed));
        }
        let quantum_signature = copy_range(entropy.as_slice(), 0, 32);
        let key_id = blake3_hash(entropy.as_slice());
        let fresh = !self.holds_key(para_id, &key_id);
        let key = QuantumChannelKey { id: key_id, key_material: entropy, protocol, quantum_signature };
        let stored = Self::copy_key(&key);
        let ghost before_store = *self;
        self.store_key(para_id, stored);
        let mut updated = info;
        if fresh {
            updated.available_keys = info.available_keys + 1;
        }
        if info.status == QuantumChannelStatus::EstablishingKeys {
            updated.status = QuantumChannelStatus::Ready;
        }
        self.channels.insert(para_id, updated);
        self.events.push(Event::QuantumKeyGenerated { para_id, protocol });
        proof {
            assert(self.keys_of(para_id).remove(key.id@) =~= before_store.keys_of(para_id).remove(key.id@));
            assert(self.keys@.remove(para_id) == before_store.keys@.remove(para_id));
            lemma_keys_finite(before_store.keys@, para_id);
            assert(self.keys_of(para_id).dom() =~= before_store.keys_of(para_id).dom().insert(key.id@));
            assert forall|p: ParaId| #![trigger keys_in(self.keys@, p)]
                keys_in(self.keys@, p).dom().len() == (if self.channels@.contains_key(p) { self.channels@[p].available_keys as nat } else { 0 }) by {
                if p != para_id {
                    assert(self.keys@.remove(para_id).contains_key(p) == self.keys@.contains_key(p));
                    assert(before_store.keys@.remove(para_id).contains_key(p) == before_store.keys@.contains_key(p));
                    if self.keys@.contains_key(p) {
                        assert(self.keys@[p] == self.keys@.remove(para_id)[p]);
                    }
                    assert(keys_in(self.keys@, p) == keys_in(before_store.keys@, p));
                    assert(keys_in(old(self).keys@, p).dom().len() == (if old(self).channels@.contains_key(p) { old(self).channels@[p].available_keys as nat } else { 0 }));
                } else {
                    assert(keys_in(old(self).keys@, p).dom().len() == info.available_keys);
                }
            }
        }
        Ok(key)
    }

    /// Whether setting up the channel with `target` draws a key from `state_bytes`: there are
    /// state bytes and the keys stored for the channel leave room for one more.
    pub open spec fn setup_draws(&self, target: ParaId, state_bytes: Seq<u8>) -> bool {
        state_bytes.len() > 0 && self.keys_of(target).dom().len() < self.max_keys()
    }

    /// The number of keys stored for the channel with `target` after its setup: those it had,
    /// and one more if setup draws a key whose id is new to the channel.
    pub open spec fn setup_count(&self, target: ParaId, state_bytes: Seq<u8>) -> nat {
        let id = blake3_digest(thrice_nested(state_bytes));
        if self.setup_draws(target, state_bytes) && !self.keys_of(target).contains_key(id) {
            self.keys_of(target).dom().len() + 1
        } else {
            self.keys_of(target).dom().len()
        }
    }

    /// How many of the three key generations of a channel setup succeed: none when setup draws
    /// no key; otherwise the first, and the other two only if the channel still has room after
    /// it (they draw the same key again).
    pub open spec fn setup_generations(&self, target: ParaId, state_bytes: Seq<u8>) -> nat {
        if !self.setup_draws(target, state_bytes) {
            0
        } else if self.setup_count(target, state_bytes) < self.max_keys() {
            3
        } else {
            1
        }
    }

    /// Establish a quantum-secure channel with another parachain: the channel record is
    /// (re)written as establishing keys, counting the keys already stored for it, three keys are
    /// generated from the given state bytes (failures are ignored; they all have the same id, so
    /// the channel gains at most one key), and the channel is marked ready if it holds a key.
    /// Only the channel-setup (root) origin may call; the size may not exceed the pallet's limit.
    pub fn establish_quantum_channel(
        &mut self,
        origin: Origin,
        target: ParaId,
        max_message_size: u32,
        state_bytes: &[u8],
    ) -> (result: Result<(), DispatchError<Error>>)
        requires
            old(self).wf(),
            state_bytes@.len() == 0 || state_bytes@.len() >= 32,
        ensures
            final(self).wf(),
            final(self).max_message() == old(self).max_message(),
            final(self).max_keys() == old(self).max_keys(),
            !(origin is Root) ==> result == Err::<(), DispatchError<Error>>(DispatchError::BadOrigin),
            origin is Root && max_message_size > old(self).max_message()
                ==> result == Err::<(), DispatchError<Error>>(DispatchError::Module(Error::MessageTooLarge)),
            final(self).queues() == old(self).queues(),
            result is Err ==> final(self).channels() == old(self).channels() && final(self).key_store() == old(self).key_store()
                && final(self).events() == old(self).events(),
            result is Ok <==> (origin is Root && max_message_size <= old(self).max_message()),
            result is Ok ==> {
                let count = old(self).setup_count(target, state_bytes@);
                &&& final(self).channels().contains_key(target)
                &&& final(self).channels()[target].para_id == target
                &&& final(self).channels()[target].max_message_size == max_message_size
                &&& final(self).channels()[target].available_keys == count
                &&& final(self).keys_of(target).dom().len() == count
                &&& final(self).channels()[target].status
                    == (if count > 0 { QuantumChannelStatus::Ready } else { QuantumChannelStatus::EstablishingKeys })
                &&& final(self).channels().remove(target) == old(self).channels().remove(target)
                &&& final(self).other_keys_unchanged(old(self), target)
                &&& channel_keys_drawn(final(self).keys_of(target), old(self).keys_of(target),
                    old(self).setup_draws(target, state_bytes@), state_bytes@)
                &&& final(self).events() == old(self).events() + Seq::new(old(self).setup_generations(target, state_bytes@),
                    |i: int| Event::QuantumKeyGenerated { para_id: target, protocol: QuantumProtocol::ThriceNestedStereo })
                    .push(Event::QuantumChannelEstablished { para_id: target, status: QuantumChannelStatus::EstablishingKeys })
            },
    {
        ensure_root(origin)?;
        if max_message_size > self.max_quantum_message_size {
            return Err(DispatchError::Module(Error::MessageTooLarge));
        }
        self.open_channel(target, max_message_size, state_bytes);
        let ghost opened = *self;
        match self.channels.get(&target) {
            Some(i) => {
                let mut info = *i;
                if info.available_keys > 0 {
                    info.status = QuantumChannelStatus::Ready;
                    self.channels.insert(target, info);
                    proof {
                        assert(self.channels@.remove(target) =~= old(self).channels@.remove(target));
                        assert forall|p: ParaId| #![trigger keys_in(self.keys@, p)]
                            keys_in(self.keys@, p).dom().len() == (if self.channels@.contains_key(p) { self.channels@[p].available_keys as nat } else { 0 }) by {
                            assert(keys_in(opened.keys@, p).dom().len() == (if opened.channels@.contains_key(p) { opened.channels@[p].available_keys as nat } else { 0 }));
                        }
                    }
                }
            },
            None => {},
        }
        self.events.push(Event::QuantumChannelEstablished { para_id: target, status: QuantumChannelStatus::EstablishingKeys });
        proof {
            self.lemma_available_keys(target);
        }
        Ok(())
    }

    /// Write the channel record (counting the keys already stored for it) and generate three
    /// keys for it, ignoring failures.
    fn open_channel(&mut self, target: ParaId, max_message_size: u32, state_bytes: &[u8])
        requires
            old(self).wf(),
            state_bytes@.len() == 0 || state_bytes@.len() >= 32,
        ensures
            final(self).wf(),
            final(self).max_message() == old(self).max_message(),
            final(self).max_keys() == old(self).max_keys(),
            final(self).queues() == old(self).queues(),
            final(self).channels().contains_key(target),
            final(self).channels()[target].para_id == target,
            final(self).channels()[target].max_message_size == max_message_size,
            final(self).channels()[target].available_keys == old(self).setup_count(target, state_bytes@),
            old(self).setup_draws(target, state_bytes@) ==> old(self).setup_count(target, state_bytes@) > 0,
            final(self).channels()[target].status == (if old(self).setup_draws(target, state_bytes@) {
                QuantumChannelStatus::Ready } else { QuantumChannelStatus::EstablishingKeys }),
            final(self).channels().remove(target) == old(self).channels().remove(target),
            final(self).other_keys_unchanged(old(self), target),
            channel_keys_drawn(final(self).keys_of(target), old(self).keys_of(target),
                old(self).setup_draws(target, state_bytes@), state_bytes@),
            final(self).events() == old(self).events() + Seq::new(old(self).setup_generations(target, state_bytes@),
                |i: int| Event::QuantumKeyGenerated { para_id: target, protocol: QuantumProtocol::ThriceNestedStereo }),
    {
        let ghost id = blake3_digest(thrice_nested(state_bytes@));
        let ghost drawn = old(self).setup_draws(target, state_bytes@);
        let ghost c0 = old(self).keys_of(target).dom().len();
        let ghost count = old(self).setup_count(target, state_bytes@);
        let ghost f = |i: int| Event::QuantumKeyGenerated { para_id: target, protocol: QuantumProtocol::ThriceNestedStereo };
        let existing = self.key_count(target);
        proof {
            old(self).lemma_available_keys(target);
            lemma_keys_finite(old(self).keys@, target);
            if old(self).keys_of(target).contains_key(id) {
                assert(old(self).keys_of(target).dom().remove(id).len() + 1 == c0);
            }
        }
        let info = QuantumChannelInfo {
            para_id: target,
            status: QuantumChannelStatus::EstablishingKeys,
            max_message_size,
            available_keys: len_as_u32(existing),
        };
        self.channels.insert(target, info);
        proof {
            assert forall|p: ParaId| #![trigger keys_in(self.keys@, p)]
                keys_in(self.keys@, p).dom().len() == (if self.channels@.contains_key(p) { self.channels@[p].available_keys as nat } else { 0 }) by {
                assert(keys_in(old(self).keys@, p).dom().len() == (if old(self).channels@.contains_key(p) { old(self).channels@[p].available_keys as nat } else { 0 }));
            }
            assert(self.channels().remove(target) =~= old(self).channels().remove(target));
            assert(old(self).events() + Seq::new(0, f) =~= old(self).events());
        }
        let mut round: usize = 0;
        while round < 3
            invariant
                0 <= round <= 3,
                self.wf(),
                state_bytes@.len() == 0 || state_bytes@.len() >= 32,
                id == blake3_digest(thrice_nested(state_bytes@)),
                drawn == old(self).setup_draws(target, state_bytes@),
                c0 == old(self).keys_of(target).dom().len(),
                count == old(self).setup_count(target, state_bytes@),
                drawn ==> count > 0,
                f == (|i: int| Event::QuantumKeyGenerated { para_id: target, protocol: QuantumProtocol::ThriceNestedStereo }),
                self.max_message() == old(self).max_message(),
                self.max_keys() == old(self).max_keys(),
                self.queues() == old(self).queues(),
                self.channels().contains_key(target),
                self.channels()[target].para_id == target,
                self.channels()[target].max_message_size == max_message_size,
                self.channels()[target].available_keys == (if drawn && round > 0 { count } else { c0 }),
                self.channels()[target].status == (if drawn && round > 0 {
                    QuantumChannelStatus::Ready } else { QuantumChannelStatus::EstablishingKeys }),
                self.channels().remove(target) == old(self).channels().remove(target),
                self.other_keys_unchanged(old(self), target),
                channel_keys_drawn(self.keys_of(target), old(self).keys_of(target), drawn && round > 0, state_bytes@),
                self.events() == old(self).events() + Seq::new(
                    (if !drawn || round == 0 { 0 } else if count < old(self).max_keys() { round as nat } else { 1 }), f),
            decreases 3 - round,
        {
            let ghost before = *self;
            let ghost n: nat = if !drawn || round == 0 { 0 } else if count < old(self).max_keys() { round as nat } else { 1 };
            let generated = self.do_generate_quantum_key(target, QuantumProtocol::ThriceNestedStereo, state_bytes);
            proof {
                assert(self.channels().remove(target) =~= before.channels().remove(target));
                assert(self.keys@.remove(target) == before.keys@.remove(target));
                match generated {
                    Ok(key) => {
                        assert(key.id@ == id);
                        assert(state_bytes@.len() > 0);
                        assert(before.channels()[target].available_keys < old(self).max_keys());
                        assert(drawn);
                        assert(self.keys_of(target).remove(id) =~= old(self).keys_of(target).remove(id));
                        assert(Seq::new(n + 1, f) =~= Seq::new(n, f).push(f(0)));
                        assert(old(self).events() + Seq::new(n + 1, f) =~= (old(self).events() + Seq::new(n, f)).push(f(0)));
                        if round > 0 {
                            assert(before.keys_of(target).contains_key(id));
                        }
                    },
                    Err(_) => {
                        if drawn {
                            assert(round > 0);
                            assert(!(count < old(self).max_keys()));
                        }
                    },
                }
            }
            round = round + 1;
        }
    }

    /// Generate a new quantum key for an existing channel (root origin only).
    pub fn generate_quantum_key(
        &mut self,
        origin: Origin,
        target: ParaId,
        protocol: QuantumProtocol,
        state_bytes: &[u8],
    ) -> (result: Result<(), DispatchError<Error>>)
        requires
            old(self).wf(),
            state_bytes@.len() == 0 || state_bytes@.len() >= 32,
        ensures
            final(self).wf(),
            final(self).max_keys() == old(self).max_keys(),
            final(self).max_message() == old(self).max_message(),
            !(origin is Root) ==> result == Err::<(), DispatchError<Error>>(DispatchError::BadOrigin),
            origin is Root && !old(self).channels().contains_key(target)
                ==> result == Err::<(), DispatchError<Error>>(DispatchError::Module(Error::QuantumChannelNotFound)),
            result is Ok <==> (origin is Root && old(self).channels().contains_key(target)
                && old(self).channels()[target].available_keys < old(self).max_keys() && state_bytes@.len() > 0),
            final(self).queues() == old(self).queues(),
            result is Ok ==> {
                let id = blake3_digest(thrice_nested(state_bytes@));
                &&& final(self).channels() == old(self).channels().insert(target,
                    with_new_key(old(self).channels()[target], !old(self).keys_of(target).contains_key(id)))
                &&& final(self).keys_of(target).remove(id) == old(self).keys_of(target).remove(id)
                &&& final(self).keys_of(target).contains_key(id)
                &&& key_from_state(final(self).keys_of(target)[id], state_bytes@, protocol)
                &&& final(self).other_keys_unchanged(old(self), target)
                &&& final(self).events() == old(self).events().push(Event::QuantumKeyGenerated { para_id: target, protocol })
            },
            result is Err ==> final(self).channels() == old(self).channels() && final(self).key_store() == old(self).key_store()
                && final(self).events() == old(self).events(),
    {
        ensure_root(origin)?;
        if !self.channels.contains_key(&target) {
            return Err(DispatchError::Module(Error::QuantumChannelNotFound));
        }
        self.do_generate_quantum_key(target, protocol, state_bytes)?;
        Ok(())
    }

    /// The first key of a channel in the order in which the store walks the keys, if any.
    fn first_key(&self, para: ParaId) -> (key: Option<&QuantumChannelKey>)
        requires
            self.wf(),
        ensures
            match key {
                Some(k) => self.key_order(para).len() > 0 && self.keys_of(para).contains_key(self.key_order(para)[0])
                    && *k == self.keys_of(para)[self.key_order(para)[0]],
                None => self.key_order(para).len() == 0,
            },
    {
        match self.keys.get(&para) {
            Some(inner) => {
                let ids = inner.keys();
                if ids.len() == 0 {
                    None
                } else {
                    proof {
                        assert(inner.key_seq().to_set().contains(inner.key_seq()[0]));
                    }
                    inner.get(&ids[0])
                }
            },
            None => None,
        }
    }

    /// Send a quantum-secure message to another parachain (signed origin): the data is encrypted
    /// under the channel's first key, tagged, queued for the destination, and that key is used up.
    pub fn send_quantum_message(
        &mut self,
        origin: Origin,
        target: ParaId,
        data: Vec<u8>,
    ) -> (result: Result<(), DispatchError<Error>>)
        requires
            old(self).wf(),
        ensures
            final(self).wf(),
            final(self).max_keys() == old(self).max_keys(),
            final(self).max_message() == old(self).max_message(),
            !(origin is Signed) ==> result == Err::<(), DispatchError<Error>>(DispatchError::BadOrigin),
            origin is Signed && !old(self).channels().contains_key(target)
                ==> result == Err::<(), DispatchError<Error>>(DispatchError::Module(Error::QuantumChannelNotFound)),
            origin is Signed && old(self).channels().contains_key(target)
                && old(self).channels()[target].status != QuantumChannelStatus::Ready
                ==> result == Err::<(), DispatchError<Error>>(DispatchError::Module(Error::QuantumChannelNotReady)),
            origin is Signed && old(self).channels().contains_key(target)
                && old(self).channels()[target].status == QuantumChannelStatus::Ready
                && (len_u32(data@.len())) > old(self).channels()[target].max_message_size
                ==> result == Err::<(), DispatchError<Error>>(DispatchError::Module(Error::MessageTooLarge)),
            origin is Signed && old(self).channels().contains_key(target)
                && old(self).channels()[target].status == QuantumChannelStatus::Ready
                && (len_u32(data@.len())) <= old(self).channels()[target].max_message_size
                && (old(self).channels()[target].available_keys == 0 || old(self).key_order(target).len() == 0)
                ==> result == Err::<(), DispatchError<Error>>(DispatchError::Module(Error::NoQuantumKeysAvailable)),
            result is Ok <==> (origin is Signed && old(self).channels().contains_key(target)
                && old(self).channels()[target].status == QuantumChannelStatus::Ready
                && (len_u32(data@.len())) <= old(self).channels()[target].max_message_size
                && old(self).channels()[target].available_keys > 0
                && old(self).key_order(target).len() > 0),
            result is Err ==> final(self).channels() == old(self).channels() && final(self).key_store() == old(self).key_store()
                && final(self).queues() == old(self).queues() && final(self).events() == old(self).events(),
            result is Ok ==> {
                let id = old(self).key_order(target)[0];
                let material = old(self).keys_of(target)[id].key_material@;
                let encrypted = encrypt_spec(data@, material);
                &&& final(self).outbound_of(target).len() == old(self).outbound_of(target).len() + 1
                &&& final(self).outbound_of(target).drop_last() == old(self).outbound_of(target)
                &&& final(self).outbound_of(target).last().destination == target
                &&& final(self).outbound_of(target).last().encrypted_data@ == encrypted
                &&& final(self).outbound_of(target).last().quantum_tag@ == quantum_tag(encrypted, material)
                &&& final(self).outbound_of(target).last().quantum_tag@ == blake3_digest(encrypted + material)
                &&& forall|p: ParaId| p != target ==> final(self).outbound_of(p) == old(self).outbound_of(p)
                &&& final(self).keys_of(target) == old(self).keys_of(target).remove(id)
                &&& final(self).other_keys_unchanged(old(self), target)
                &&& final(self).channels() == old(self).channels().insert(target, with_key_used(old(self).channels()[target]))
                &&& final(self).events() == old(self).events().push(Event::QuantumMessageSent { para_id: target, message_size: len_u32(data@.len()) })
            },
    {
        ensure_signed(origin)?;
        let data_len = len_as_u32(data.len());
        let info = match self.channels.get(&target) {
            Some(i) => *i,
            None => { return Err(DispatchError::Module(Error::QuantumChannelNotFound)); },
        };
        if info.status != QuantumChannelStatus::Ready {
            return Err(DispatchError::Module(Error::QuantumChannelNotReady));
        }
        if data_len > info.max_message_size {
            return Err(DispatchError::Module(Error::MessageTooLarge));
        }
        if info.available_keys == 0 {
            return Err(DispatchError::Module(Error::NoQuantumKeysAvailable));
        }
        let (key_id, encrypted_data, quantum_tag) = match self.first_key(target) {
            Some(key) => {
                proof {
                    assert(self.keys_of(target).contains_key(self.key_order(target)[0]));
                }
                let encrypted = encrypt_with_quantum_key(data.as_slice(), key.key_material.as_slice());
                let mut tagged = copy_all(encrypted.as_slice());
                append_bytes(&mut tagged, key.key_material.as_slice());
                let tag = blake3_hash(tagged.as_slice());
                (key.id, encrypted, tag)
            },
            None => { return Err(DispatchError::Module(Error::NoQuantumKeysAvailable)); },
        };
        let ghost first_id = self.key_order(target)[0];
        assert(key_id@ == first_id);
        let message = QuantumSecureXcmpMessage { destination: target, encrypted_data, quantum_tag };
        let ghost before = *self;
        let mut queue = match self.outbound.remove(&target) {
            Some(q) => q,
            None => Vec::new(),
        };
        assert(queue@ == before.outbound_of(target));
        queue.push(message);
        self.outbound.insert(target, queue);
        self.drop_key(target, key_id);
        let mut updated = info;
        updated.available_keys = info.available_keys.saturating_sub(1);
        self.channels.insert(target, updated);
        self.events.push(Event::QuantumMessageSent { para_id: target, message_size: data_len });
        proof {
            assert(updated == with_key_used(info));
            self.lemma_count_after_use(before, target, first_id);
        }
        Ok(())
    }

    /// Hand over every queued message: the encrypted payloads, in queue order, parachain after
    /// parachain (in the order in which the store walks them), for the parachain system to send
    /// upward; every queue is then cleared. The weight is 15 000 000 per message, saturating.
    pub fn process_outbound_quantum_messages(&mut self) -> (sent: (Weight, Vec<Vec<u8>>))
        requires
            old(self).wf(),
        ensures
            final(self).wf(),
            final(self).outbound_paras().len() == 0,
            final(self).channels() == old(self).channels(),
            final(self).key_store() == old(self).key_store(),
            final(self).events() == old(self).events(),
            final(self).max_keys() == old(self).max_keys(),
            final(self).max_message() == old(self).max_message(),
            sent.1@.map_values(|v: Vec<u8>| v@) == old(self).queued_payloads(),
            sent.0.ref_time == saturated_weight(old(self).queued_payloads().len()),
            sent.0.proof_size == 0,
    {
        let mut total = Weight::zero();
        let per_message = <() as WeightInfo>::send_quantum_message(0);
        let mut sent: Vec<Vec<u8>> = Vec::new();
        let paras = self.outbound.keys();
        let ghost order = self.outbound.key_seq();
        let ghost queues0 = self.outbound@;
        let ghost dom0 = self.outbound@.dom();
        assert forall|j: int| 0 <= j < paras@.len() implies paras@[j] == order[j] by {
            assert(paras@.map_values(|k: u32| k@)[j] == order[j]);
        }
        assert(sent@.map_values(|v: Vec<u8>| v@) =~= payloads_in(order.take(0), queues0));
        assert forall|j: int| 0 <= j < paras@.len() implies self.outbound@.contains_key(#[trigger] paras@[j]) by {
            assert(order.to_set().contains(order[j]));
        }
        let mut i: usize = 0;
        while i < paras.len()
            invariant
                0 <= i <= paras@.len(),
                self.wf(),
                self.channels() == old(self).channels(),
                self.key_store() == old(self).key_store(),
                self.events() == old(self).events(),
                self.max_keys() == old(self).max_keys(),
                self.max_message() == old(self).max_message(),
                forall|j: int| 0 <= j < i ==> !self.outbound@.contains_key(#[trigger] paras@[j]),
                forall|j: int| i <= j < paras@.len() ==> self.outbound@.contains_key(#[trigger] paras@[j])
                    && self.outbound@[paras@[j]] == queues0[paras@[j]],
                order.to_set() == dom0,
                order.no_duplicates(),
                forall|p: ParaId| self.outbound@.contains_key(p) ==> dom0.contains(p),
                paras@.len() == order.len(),
                forall|j: int| 0 <= j < paras@.len() ==> #[trigger] paras@[j] == order[j],
                sent@.map_values(|v: Vec<u8>| v@) == payloads_in(order.take(i as int), queues0),
                total.ref_time == saturated_weight(sent@.len()),
                total.proof_size == 0,
                per_message == (Weight { ref_time: 15_000_000, proof_size: 0 }),
            decreases paras@.len() - i,
        {
            let para = paras[i];
            proof {
                assert(order.to_set().contains(order[i as int]));
                assert(order.take(i as int + 1).drop_last() =~= order.take(i as int));
                assert(order.take(i as int + 1).last() == para);
            }
            let ghost before = self.outbound@;
            let ghost sent_before = sent@.map_values(|v: Vec<u8>| v@);
            if let Some(queue) = self.outbound.remove(&para) {
                let mut m: usize = 0;
                while m < queue.len()
                    invariant
                        0 <= m <= queue@.len(),
                        sent@.map_values(|v: Vec<u8>| v@) == sent_before + payloads(queue@.take(m as int)),
                        total.ref_time == saturated_weight(sent@.len()),
                        total.proof_size == 0,
                        per_message == (Weight { ref_time: 15_000_000, proof_size: 0 }),
                    decreases queue@.len() - m,
                {
                    let payload = copy_all(queue[m].encrypted_data.as_slice());
                    let ghost prev = sent@;
                    sent.push(payload);
                    total = total.saturating_add(per_message);
                    proof {
                        assert(queue@.take(m as int + 1) =~= queue@.take(m as int).push(queue@[m as int]));
                        assert(payloads(queue@.take(m as int + 1)) =~= payloads(queue@.take(m as int)).push(queue@[m as int].encrypted_data@));
                        assert(sent@.map_values(|v: Vec<u8>| v@) =~= prev.map_values(|v: Vec<u8>| v@).push(payload@));
                    }
                    m = m + 1;
                }
                proof {
                    assert(queue@.take(queue@.len() as int) =~= queue@);
                }
            }
            proof {
                assert forall|j: int| i + 1 <= j < paras@.len() implies self.outbound@.contains_key(#[trigger] paras@[j])
                    && self.outbound@[paras@[j]] == queues0[paras@[j]] by {
                    assert(order[j] != order[i as int]);
                }
            }
            i = i + 1;
        }
        proof {
            assert forall|p: ParaId| !self.outbound@.contains_key(p) by {
                if self.outbound@.contains_key(p) {
                    assert(order.to_set().contains(p));
                    let j = choose|j: int| 0 <= j < order.len() && order[j] == p;
                    assert(paras@[j] == p);
                }
            }
            assert(self.outbound@.dom() =~= Set::<ParaId>::empty());
            assert(order.take(order.len() as int) =~= order);
        }
        (total, sent)
    }

    /// The end-of-block hook: hand over the queued messages.
    pub fn on_finalize(&mut self) -> (sent: Vec<Vec<u8>>)
        requires
            old(self).wf(),
        ensures
            final(self).wf(),
            final(self).outbound_paras().len() == 0,
            final(self).channels() == old(self).channels(),
            final(self).key_store() == old(self).key_store(),
            final(self).events() == old(self).events(),
            sent@.map_values(|v: Vec<u8>| v@) == old(self).queued_payloads(),
    {
        let (_, sent) = self.process_outbound_quantum_messages();
        sent
    }
}

impl QuantumMessaging {
    /// Whether the key stored at position `i` of a channel's key order authenticates an
    /// encrypted message with the given tag.
    pub open spec fn key_matches(&self, para: ParaId, i: int, encrypted: Seq<u8>, tag: Seq<u8>) -> bool {
        0 <= i < self.key_order(para).len()
            && quantum_tag(encrypted, self.keys_of(para)[self.key_order(para)[i]].key_material@) == tag
    }

    /// The position of the first key, in key order, that authenticates the message.
    pub open spec fn first_match(&self, para: ParaId, encrypted: Seq<u8>, tag: Seq<u8>) -> int {
        choose|i: int| self.key_matches(para, i, encrypted, tag)
            && forall|j: int| 0 <= j < i ==> !self.key_matches(para, j, encrypted, tag)
    }

    /// A key authenticates a message exactly when BLAKE3 of the encrypted bytes followed by the
    /// key's material is the message's tag.
    pub proof fn lemma_key_matches_tag(&self, para: ParaId, i: int, encrypted: Seq<u8>, tag: Seq<u8>)
        ensures
            self.key_matches(para, i, encrypted, tag) <==> (0 <= i < self.key_order(para).len()
                && blake3_digest(encrypted + self.keys_of(para)[self.key_order(para)[i]].key_material@) == tag),
    {
    }

    /// Some key of a channel authenticates a message exactly when, for some key, BLAKE3 of the
    /// encrypted bytes followed by the key's material is the message's tag.
    pub proof fn lemma_some_key_matches(&self, para: ParaId, encrypted: Seq<u8>, tag: Seq<u8>)
        ensures
            (exists|i: int| self.key_matches(para, i, encrypted, tag)) <==> (exists|i: int| 0 <= i < self.key_order(para).len()
                && blake3_digest(encrypted + self.keys_of(para)[#[trigger] self.key_order(para)[i]].key_material@) == tag),
    {
        if exists|i: int| self.key_matches(para, i, encrypted, tag) {
            let i = choose|i: int| self.key_matches(para, i, encrypted, tag);
            self.lemma_key_matches_tag(para, i, encrypted, tag);
            assert(blake3_digest(encrypted + self.keys_of(para)[self.key_order(para)[i]].key_material@) == tag);
        }
        if exists|i: int| 0 <= i < self.key_order(para).len()
            && blake3_digest(encrypted + self.keys_of(para)[#[trigger] self.key_order(para)[i]].key_material@) == tag {
            let i = choose|i: int| 0 <= i < self.key_order(para).len()
                && blake3_digest(encrypted + self.keys_of(para)[#[trigger] self.key_order(para)[i]].key_material@) == tag;
            self.lemma_key_matches_tag(para, i, encrypted, tag);
            assert(self.key_matches(para, i, encrypted, tag));
        }
    }

    /// Handle an incoming quantum-secure message from `source`: the channel must exist and be
    /// ready; the first key (in key order) whose tag matches decrypts the message and is then
    /// used up.
    pub fn handle_message(
        &mut self,
        source: ParaId,
        message: QuantumSecureXcmpMessage,
    ) -> (result: Result<(), MessageSendError>)
        requires
            old(self).wf(),
        ensures
            final(self).wf(),
            final(self).max_keys() == old(self).max_keys(),
            final(self).max_message() == old(self).max_message(),
            final(self).queues() == old(self).queues(),
            (!old(self).channels().contains_key(source) || old(self).channels()[source].status != QuantumChannelStatus::Ready)
                ==> result == Err::<(), MessageSendError>(MessageSendError::ChannelClosed),
            old(self).channels().contains_key(source) && old(self).channels()[source].status == QuantumChannelStatus::Ready
                && !(exists|i: int| old(self).key_matches(source, i, message.encrypted_data@, message.quantum_tag@))
                ==> result == Err::<(), MessageSendError>(MessageSendError::NotInChannelMask),
            result is Err ==> final(self).channels() == old(self).channels() && final(self).key_store() == old(self).key_store()
                && final(self).events() == old(self).events(),
            result is Ok <==> (old(self).channels().contains_key(source)
                && old(self).channels()[source].status == QuantumChannelStatus::Ready
                && exists|i: int| old(self).key_matches(source, i, message.encrypted_data@, message.quantum_tag@)),
            result is Ok <==> (old(self).channels().contains_key(source)
                && old(self).channels()[source].status == QuantumChannelStatus::Ready
                && exists|i: int| 0 <= i < old(self).key_order(source).len()
                    && blake3_digest(message.encrypted_data@
                        + old(self).keys_of(source)[#[trigger] old(self).key_order(source)[i]].key_material@)
                        == message.quantum_tag@),
            result is Ok ==> {
                let i = old(self).first_match(source, message.encrypted_data@, message.quantum_tag@);
                &&& old(self).key_matches(source, i, message.encrypted_data@, message.quantum_tag@)
                &&& forall|j: int| 0 <= j < i ==> !old(self).key_matches(source, j, message.encrypted_data@, message.quantum_tag@)
                &&& final(self).keys_of(source) == old(self).keys_of(source).remove(old(self).key_order(source)[i])
                &&& final(self).other_keys_unchanged(old(self), source)
                &&& final(self).channels() == old(self).channels().insert(source, with_key_used(old(self).channels()[source]))
                &&& final(self).events() == old(self).events().push(Event::QuantumMessageReceived {
                    from_para_id: source,
                    message_size: len_u32(message.encrypted_data@.len()),
                })
            },
    {
        proof {
            self.lemma_some_key_matches(source, message.encrypted_data@, message.quantum_tag@);
        }
        let info = match self.channels.get(&source) {
            Some(i) => *i,
            None => { return Err(MessageSendError::ChannelClosed); },
        };
        if info.status != QuantumChannelStatus::Ready {
            return Err(MessageSendError::ChannelClosed);
        }
        let ghost enc = message.encrypted_data@;
        let ghost tag = message.quantum_tag@;
        let found = self.find_matching_key(source, &message);
        match found {
            Some(idx) => {
                let ghost old_self = *self;
                let (key_id, size) = match self.keys.get(&source) {
                    Some(inner) => {
                        let ids = inner.keys();
                        proof {
                            assert(ids@.map_values(|k: [u8; 32]| k@)[ix(idx)] == self.key_order(source)[ix(idx)]);
                            assert(inner.key_seq().to_set().contains(inner.key_seq()[ix(idx)]));
                        }
                        let key = inner.get(&ids[idx]).unwrap();
                        let decrypted = decrypt_with_quantum_key(message.encrypted_data.as_slice(), key.key_material.as_slice());
                        (ids[idx], len_as_u32(decrypted.len()))
                    },
                    None => { return Err(MessageSendError::NotInChannelMask); },
                };
                self.drop_key(source, key_id);
                self.channels.insert(source, QuantumChannelInfo { available_keys: info.available_keys.saturating_sub(1), ..info });
                self.events.push(Event::QuantumMessageReceived { from_para_id: source, message_size: size });
                proof {
                    assert(old_self.keys_of(source).contains_key(key_id@));
                    self.lemma_count_after_use(old_self, source, key_id@);
                    let i = old_self.first_match(source, enc, tag);
                    assert(old_self.key_matches(source, ix(idx), enc, tag));
                    if i != ix(idx) {
                        if i < ix(idx) {
                        } else {
                            assert(!old_self.key_matches(source, ix(idx), enc, tag));
                        }
                    }
                }
                Ok(())
            },
            None => Err(MessageSendError::NotInChannelMask),
        }
    }

    /// The position of the first key, in key order, whose tag over the message matches.
    fn find_matching_key(&self, source: ParaId, message: &QuantumSecureXcmpMessage) -> (found: Option<usize>)
        requires
            self.wf(),
        ensures
            match found {
                Some(i) => self.key_matches(source, ix(i), message.encrypted_data@, message.quantum_tag@)
                    && forall|j: int| 0 <= j < i ==> !self.key_matches(source, j, message.encrypted_data@, message.quantum_tag@),
                None => forall|j: int| !self.key_matches(source, j, message.encrypted_data@, message.quantum_tag@),
            },
    {
        match self.keys.get(&source) {
            Some(inner) => {
                let ids = inner.keys();
                let mut i: usize = 0;
                while i < ids.len()
                    invariant
                        0 <= i <= ids@.len(),
                        self.keys@.contains_key(source),
                        *inner == self.keys@[source],
                        ids@.map_values(|k: [u8; 32]| k@) == inner.key_seq(),
                        inner.key_seq().to_set() == inner@.dom(),
                        forall|j: int| 0 <= j < i ==> !self.key_matches(source, j, message.encrypted_data@, message.quantum_tag@),
                    decreases ids@.len() - i,
                {
                    proof {
                        assert(ids@.map_values(|k: [u8; 32]| k@)[ix(i)] == inner.key_seq()[ix(i)]);
                        assert(inner.key_seq().to_set().contains(inner.key_seq()[ix(i)]));
                    }
                    let key = inner.get(&ids[i]).unwrap();
                    let mut tagged = copy_all(message.encrypted_data.as_slice());
                    append_bytes(&mut tagged, key.key_material.as_slice());
                    let tag = blake3_hash(tagged.as_slice());
                    if tag.key_eq(&message.quantum_tag) {
                        return Some(i);
                    }
                    i = i + 1;
                }
                None
            },
            None => None,
        }
    }

    /// Establish a quantum channel with `target`, or look up the one that exists: an existing
    /// record is returned unchanged; otherwise a record establishing keys, with the pallet's
    /// largest message size and no keys, is stored and returned, and three keys are generated
    /// for it from the state bytes (failures ignored): all three have the same id, so the new
    /// channel holds one key, or none without state bytes or room for keys.
    pub fn establish_channel(&mut self, target: ParaId, state_bytes: &[u8]) -> (result: Result<QuantumChannelInfo, MessageSendError>)
        requires
            old(self).wf(),
            state_bytes@.len() == 0 || state_bytes@.len() >= 32,
        ensures
            final(self).wf(),
            final(self).max_keys() == old(self).max_keys(),
            final(self).max_message() == old(self).max_message(),
            old(self).channels().contains_key(target) ==> result == Ok::<QuantumChannelInfo, MessageSendError>(old(self).channels()[target])
                && final(self).channels() == old(self).channels() && final(self).key_store() == old(self).key_store(),
            !old(self).channels().contains_key(target) ==> result == Ok::<QuantumChannelInfo, MessageSendError>(QuantumChannelInfo {
                para_id: target,
                status: QuantumChannelStatus::EstablishingKeys,
                max_message_size: old(self).max_message(),
                available_keys: 0,
            }) && final(self).channels().contains_key(target)
                && final(self).channels()[target].available_keys
                    == (if state_bytes@.len() == 0 || old(self).max_keys() == 0 { 0u32 } else { 1u32 })
                && final(self).channels().remove(target) == old(self).channels().remove(target)
                && final(self).other_keys_unchanged(old(self), target)
                && channel_keys_drawn(final(self).keys_of(target), old(self).keys_of(target),
                    final(self).channels()[target].available_keys > 0, state_bytes@),
    {
        match self.channels.get(&target) {
            Some(i) => Ok(*i),
            None => {
                let max = self.max_quantum_message_size;
                proof {
                    self.lemma_available_keys(target);
                }
                self.open_channel(target, max, state_bytes);
                Ok(QuantumChannelInfo { para_id: target, status: QuantumChannelStatus::EstablishingKeys, max_message_size: max, available_keys: 0 })
            },
        }
    }

    /// The channels, in the order in which the store walks them.
    pub closed spec fn channel_order(&self) -> Seq<ParaId> {
        self.channels.key_seq()
    }

    /// A channel that the idle hook tops up: ready, with fewer than half the most keys.
    pub open spec fn needs_keys(&self, p: ParaId) -> bool {
        &&& self.channels().contains_key(p)
        &&& self.channels()[p].status == QuantumChannelStatus::Ready
        &&& self.channels()[p].available_keys < self.max_keys() / 2
    }

    /// `needs_keys` as a predicate.
    pub open spec fn needs_keys_pred(&self) -> spec_fn(ParaId) -> bool {
        |p: ParaId| self.needs_keys(p)
    }

    /// The channels that the idle hook gives a key, in the order in which the store walks them:
    /// those that need keys, as far as the remaining weight pays for one each (20 000 000), and
    /// none without state bytes.
    pub open spec fn idle_targets(&self, remaining: Weight, state_len: nat) -> Seq<ParaId> {
        let due = self.channel_order().filter(self.needs_keys_pred());
        let budget = remaining.ref_time / 20_000_000;
        if state_len == 0 {
            Seq::empty()
        } else if budget < due.len() {
            due.take(budget as int)
        } else {
            due
        }
    }

    /// The idle hook only tops up channels that are ready and hold fewer than half the most keys.
    pub proof fn lemma_idle_targets_need_keys(&self, remaining: Weight, state_len: nat, p: ParaId)
        ensures
            self.idle_targets(remaining, state_len).contains(p) ==> {
                &&& self.channels().contains_key(p)
                &&& self.channels()[p].status == QuantumChannelStatus::Ready
                &&& self.channels()[p].available_keys < self.max_keys() / 2
            },
    {
        let due = self.channel_order().filter(self.needs_keys_pred());
        let t = self.idle_targets(remaining, state_len);
        if t.contains(p) {
            let k = choose|k: int| 0 <= k < t.len() && t[k] == p;
            assert(due[k] == p);
            self.channel_order().lemma_filter_pred(self.needs_keys_pred(), k);
            assert((self.needs_keys_pred())(due[k]));
        }
    }

    /// The idle hook: while the remaining weight allows another key (20 000 000 each), every
    /// ready channel with fewer than half the most keys gets the key of the state bytes (counted
    /// once, if it is new to the channel), in the order in which the store walks them. Returns
    /// the weight used.
    pub fn on_idle(&mut self, remaining_weight: Weight, state_bytes: &[u8]) -> (used: Weight)
        requires
            old(self).wf(),
            state_bytes@.len() == 0 || state_bytes@.len() >= 32,
        ensures
            final(self).wf(),
            final(self).max_keys() == old(self).max_keys(),
            final(self).max_message() == old(self).max_message(),
            final(self).queues() == old(self).queues(),
            final(self).channels().dom() == old(self).channels().dom(),
            ({
                let t = old(self).idle_targets(remaining_weight, state_bytes@.len());
                let id = blake3_digest(thrice_nested(state_bytes@));
                &&& used.ref_time == 20_000_000 * t.len()
                &&& used.proof_size == 0
                &&& forall|k: int| 0 <= k < t.len() ==> {
                    &&& final(self).channels()[#[trigger] t[k]] == with_new_key(old(self).channels()[t[k]], !old(self).keys_of(t[k]).contains_key(id))
                    &&& final(self).keys_of(t[k]).remove(id) == old(self).keys_of(t[k]).remove(id)
                    &&& final(self).keys_of(t[k]).contains_key(id)
                    &&& key_from_state(final(self).keys_of(t[k])[id], state_bytes@, QuantumProtocol::ThriceNestedStereo)
                }
                &&& forall|p: ParaId| !t.contains(p) ==> final(self).keys_of(p) == old(self).keys_of(p)
                    && (old(self).channels().contains_key(p) ==> final(self).channels()[p] == old(self).channels()[p])
                &&& forall|p: ParaId| #[trigger] old(self).channels().contains_key(p)
                    && (old(self).channels()[p].status != QuantumChannelStatus::Ready
                        || old(self).channels()[p].available_keys >= old(self).max_keys() / 2)
                    ==> final(self).keys_of(p) == old(self).keys_of(p) && final(self).channels()[p] == old(self).channels()[p]
                &&& final(self).events() == old(self).events()
                    + t.map_values(|p: ParaId| Event::QuantumKeyGenerated { para_id: p, protocol: QuantumProtocol::ThriceNestedStereo })
            }),
    {
        let mut used = Weight::zero();
        let per_key = <() as WeightInfo>::generate_quantum_key();
        let ghost old_self = *self;
        let ghost order = old_self.channel_order();
        let ghost pred = old_self.needs_keys_pred();
        let ghost budget: nat = (remaining_weight.ref_time / 20_000_000) as nat;
        let ghost id = blake3_digest(thrice_nested(state_bytes@));
        let ghost f = |p: ParaId| Event::QuantumKeyGenerated { para_id: p, protocol: QuantumProtocol::ThriceNestedStereo };
        if remaining_weight.lt(&per_key) {
            proof {
                let due = order.filter(pred);
                if budget < due.len() {
                    assert(due.take(0) =~= Seq::<ParaId>::empty());
                }
                let t = old_self.idle_targets(remaining_weight, state_bytes@.len());
                assert(t =~= Seq::<ParaId>::empty());
                assert(self.events() + t.map_values(f) =~= self.events());
            }
            return used;
        }
        let paras = self.channels.keys();
        proof {
            assert forall|j: int| 0 <= j < paras@.len() implies paras@[j] == order[j] by {
                assert(paras@.map_values(|k: u32| k@)[j] == order[j]);
            }
        }
        let half = self.max_keys_per_channel / 2;
        let ghost mut due_seen = Seq::<ParaId>::empty();
        let ghost mut targets = Seq::<ParaId>::empty();
        assert(order.take(0) =~= Seq::<ParaId>::empty());
        assert(old_self.events() + targets.map_values(f) =~= old_self.events());
        let mut i: usize = 0;
        while i < paras.len()
            invariant
                0 <= i <= paras@.len(),
                old_self == *old(self),
                old_self.wf(),
                state_bytes@.len() == 0 || state_bytes@.len() >= 32,
                order == old_self.channel_order(),
                pred == old_self.needs_keys_pred(),
                f == (|p: ParaId| Event::QuantumKeyGenerated { para_id: p, protocol: QuantumProtocol::ThriceNestedStereo }),
                id == blake3_digest(thrice_nested(state_bytes@)),
                budget == remaining_weight.ref_time / 20_000_000,
                half == old_self.max_keys() / 2,
                paras@.len() == order.len(),
                forall|j: int| 0 <= j < order.len() ==> paras@[j] == #[trigger] order[j],
                order.no_duplicates(),
                order.to_set() == old_self.channels().dom(),
                due_seen == order.take(i as int).filter(pred),
                targets.len() <= due_seen.len(),
                targets.len() <= budget,
                state_bytes@.len() == 0 ==> targets.len() == 0,
                state_bytes@.len() > 0 ==> (targets.len() == due_seen.len() || targets.len() == budget),
                targets == due_seen.take(targets.len() as int),
                self.wf(),
                self.max_keys() == old_self.max_keys(),
                self.max_message() == old_self.max_message(),
                self.queues() == old_self.queues(),
                self.channels().dom() == old_self.channels().dom(),
                per_key == (Weight { ref_time: 20_000_000, proof_size: 0 }),
                used.ref_time == 20_000_000 * targets.len(),
                used.proof_size == 0,
                forall|k: int| 0 <= k < targets.len() ==> {
                    &&& self.channels()[#[trigger] targets[k]] == with_new_key(old_self.channels()[targets[k]], !old_self.keys_of(targets[k]).contains_key(id))
                    &&& self.keys_of(targets[k]).remove(id) == old_self.keys_of(targets[k]).remove(id)
                    &&& self.keys_of(targets[k]).contains_key(id)
                    &&& key_from_state(self.keys_of(targets[k])[id], state_bytes@, QuantumProtocol::ThriceNestedStereo)
                },
                forall|p: ParaId| !targets.contains(p) ==> self.keys_of(p) == old_self.keys_of(p)
                    && (old_self.channels().contains_key(p) ==> self.channels()[p] == old_self.channels()[p]),
                self.events() == old_self.events() + targets.map_values(f),
            decreases paras@.len() - i,
        {
            let para = paras[i];
            proof {
                assert(para == order[i as int]);
                assert(order.take(i as int + 1) =~= order.take(i as int).push(para));
                order.take(i as int).lemma_filter_push(para, pred);
                if targets.contains(para) {
                    let k = choose|k: int| 0 <= k < targets.len() && targets[k] == para;
                    assert(due_seen[k] == para);
                    assert(due_seen.contains(para));
                    order.take(i as int).lemma_filter_contains_rev(pred, para);
                    let j = choose|j: int| 0 <= j < i && order.take(i as int)[j] == para;
                    assert(order[j] == order[i as int]);
                }
                assert(!targets.contains(para));
                assert(order.to_set().contains(para));
                assert(self.channels().contains_key(para));
                assert(self.channels()[para] == old_self.channels()[para]);
            }
            let ghost g = targets.len();
            if used.ref_time as u128 + per_key.ref_time as u128 <= remaining_weight.ref_time as u128 {
                let eligible = match self.channels.get(&para) {
                    Some(info) => info.status == QuantumChannelStatus::Ready && info.available_keys < half,
                    None => false,
                };
                if eligible {
                    let ghost before = *self;
                    let generated = self.do_generate_quantum_key(para, QuantumProtocol::ThriceNestedStereo, state_bytes);
                    if generated.is_ok() {
                        used = Weight::from_parts(used.ref_time + per_key.ref_time, 0);
                        proof {
                            assert(g + 1 <= budget) by (nonlinear_arith)
                                requires
                                    20_000_000 * g + 20_000_000 <= remaining_weight.ref_time,
                                    budget == remaining_weight.ref_time / 20_000_000,
                            ;
                            let new_targets = targets.push(para);
                            assert(due_seen.push(para).take(g as int + 1) =~= new_targets);
                            assert(new_targets.map_values(f) =~= targets.map_values(f).push(f(para)));
                            assert forall|x: ParaId| !new_targets.contains(x) implies self.keys_of(x) == old_self.keys_of(x)
                                && (old_self.channels().contains_key(x) ==> self.channels()[x] == old_self.channels()[x]) by {
                                assert(new_targets[new_targets.len() - 1] == para);
                                if targets.contains(x) {
                                    let k = choose|k: int| 0 <= k < targets.len() && targets[k] == x;
                                    assert(new_targets[k] == x);
                                }
                                assert(self.keys@.remove(para) == before.keys@.remove(para));
                                assert(self.keys@.remove(para).contains_key(x) == self.keys@.contains_key(x));
                                assert(before.keys@.remove(para).contains_key(x) == before.keys@.contains_key(x));
                                if self.keys@.contains_key(x) {
                                    assert(self.keys@[x] == self.keys@.remove(para)[x]);
                                }
                            }
                            assert forall|k: int| 0 <= k < new_targets.len() implies {
                                &&& self.channels()[#[trigger] new_targets[k]] == with_new_key(old_self.channels()[new_targets[k]], !old_self.keys_of(new_targets[k]).contains_key(id))
                                &&& self.keys_of(new_targets[k]).remove(id) == old_self.keys_of(new_targets[k]).remove(id)
                                &&& self.keys_of(new_targets[k]).contains_key(id)
                                &&& key_from_state(self.keys_of(new_targets[k])[id], state_bytes@, QuantumProtocol::ThriceNestedStereo)
                            } by {
                                if k < targets.len() {
                                    let x = targets[k];
                                    assert(new_targets[k] == x);
                                    assert(targets.contains(x));
                                    assert(x != para);
                                    assert(self.keys@.remove(para) == before.keys@.remove(para));
                                    assert(self.keys@.remove(para).contains_key(x) == self.keys@.contains_key(x));
                                    assert(before.keys@.remove(para).contains_key(x) == before.keys@.contains_key(x));
                                    if self.keys@.contains_key(x) {
                                        assert(self.keys@[x] == self.keys@.remove(para)[x]);
                                    }
                                }
                            }
                            targets = new_targets;
                        }
                    } else {
                        proof {
                            assert(state_bytes@.len() == 0);
                        }
                    }
                } else {
                    proof {
                        assert(!pred(para));
                    }
                }
            } else {
                proof {
                    assert(g >= budget) by (nonlinear_arith)
                        requires
                            20_000_000 * g + 20_000_000 > remaining_weight.ref_time,
                            budget == remaining_weight.ref_time / 20_000_000,
                    ;
                    if pred(para) {
                        assert(due_seen.push(para).take(g as int) =~= targets);
                    }
                }
            }
            proof {
                if !pred(para) {
                } else if targets.len() == g && state_bytes@.len() > 0 {
                    assert(due_seen.push(para).take(g as int) =~= targets);
                }
                due_seen = order.take(i as int + 1).filter(pred);
            }
            i = i + 1;
        }
        proof {
            assert(order.take(i as int) =~= order);
            let due = order.filter(pred);
            if targets.len() == due.len() {
                assert(due.take(targets.len() as int) =~= due);
            }
            if state_bytes@.len() == 0 {
                assert(targets =~= Seq::<ParaId>::empty());
            }
            assert(targets == old_self.idle_targets(remaining_weight, state_bytes@.len()));
            assert forall|p: ParaId| #[trigger] old_self.channels().contains_key(p)
                && (old_self.channels()[p].status != QuantumChannelStatus::Ready
                    || old_self.channels()[p].available_keys >= old_self.max_keys() / 2)
                implies !targets.contains(p) by {
                old_self.lemma_idle_targets_need_keys(remaining_weight, state_bytes@.len(), p);
            }
        }
        used
    }
}

impl QuantumXcmpMessageHandler for QuantumMessaging {
    closed spec fn handler_wf(&self) -> bool {
        self.wf()
    }

    /// An existing channel is answered unchanged and nothing changes; otherwise a record
    /// establishing keys, with the largest message size and no keys, is answered, and the stored
    /// channel holds the one key drawn from the state bytes (none without state bytes or room
    /// for keys), all else kept.
    open spec fn channel_established(
        &self,
        after: &Self,
        target: ParaId,
        state_bytes: Seq<u8>,
        result: Result<QuantumChannelInfo, MessageSendError>,
    ) -> bool {
        &&& after.max_keys() == self.max_keys()
        &&& after.max_message() == self.max_message()
        &&& self.channels().contains_key(target) ==> result == Ok::<QuantumChannelInfo, MessageSendError>(self.channels()[target])
            && after.channels() == self.channels() && after.key_store() == self.key_store()
        &&& !self.channels().contains_key(target) ==> result == Ok::<QuantumChannelInfo, MessageSendError>(QuantumChannelInfo {
                para_id: target,
                status: QuantumChannelStatus::EstablishingKeys,
                max_message_size: self.max_message(),
                available_keys: 0,
            }) && after.channels().contains_key(target)
            && after.channels()[target].available_keys
                == (if state_bytes.len() == 0 || self.max_keys() == 0 { 0u32 } else { 1u32 })
            && after.channels().remove(target) == self.channels().remove(target)
            && after.other_keys_unchanged(self, target)
            && channel_keys_drawn(after.keys_of(target), self.keys_of(target),
                after.channels()[target].available_keys > 0, state_bytes)
    }

    /// As `do_generate_quantum_key`, with every failure answered as temporarily unavailable:
    /// a key is made (and stored, the channel counting it if its id is new) exactly when the channel
    /// exists, holds fewer than the most keys and the state bytes are not empty.
    open spec fn key_generated(
        &self,
        after: &Self,
        target: ParaId,
        protocol: QuantumProtocol,
        state_bytes: Seq<u8>,
        result: Result<QuantumChannelKey, MessageSendError>,
    ) -> bool {
        &&& after.max_message() == self.max_message()
        &&& after.max_keys() == self.max_keys()
        &&& after.queues() == self.queues()
        &&& result is Ok <==> (self.channels().contains_key(target)
            && self.channels()[target].available_keys < self.max_keys()
            && state_bytes.len() > 0)
        &&& result is Err ==> result == Err::<QuantumChannelKey, MessageSendError>(MessageSendError::TemporarilyUnavailable)
            && after.channels() == self.channels() && after.key_store() == self.key_store()
            && after.events() == self.events()
        &&& result matches Ok(key) ==> {
            &&& key_from_state(key, state_bytes, protocol)
            &&& after.channels() == self.channels().insert(target,
                with_new_key(self.channels()[target], !self.keys_of(target).contains_key(key.id@)))
            &&& after.keys_of(target).remove(key.id@) == self.keys_of(target).remove(key.id@)
            &&& after.keys_of(target).contains_key(key.id@)
            &&& same_key(after.keys_of(target)[key.id@], key)
            &&& after.other_keys_unchanged(self, target)
            &&& after.events() == self.events().push(Event::QuantumKeyGenerated { para_id: target, protocol })
        }
    }

    fn handle_quantum_xcmp_message(
        &mut self,
        source: ParaId,
        message: QuantumSecureXcmpMessage,
    ) -> (result: Result<(), MessageSendError>)
        ensures
            (!old(self).channels().contains_key(source) || old(self).channels()[source].status != QuantumChannelStatus::Ready)
                ==> result == Err::<(), MessageSendError>(MessageSendError::ChannelClosed),
            old(self).channels().contains_key(source) && old(self).channels()[source].status == QuantumChannelStatus::Ready
                && !(exists|i: int| old(self).key_matches(source, i, message.encrypted_data@, message.quantum_tag@))
                ==> result == Err::<(), MessageSendError>(MessageSendError::NotInChannelMask),
            result is Ok <==> (old(self).channels().contains_key(source)
                && old(self).channels()[source].status == QuantumChannelStatus::Ready
                && exists|i: int| old(self).key_matches(source, i, message.encrypted_data@, message.quantum_tag@)),
            result is Ok <==> (old(self).channels().contains_key(source)
                && old(self).channels()[source].status == QuantumChannelStatus::Ready
                && exists|i: int| 0 <= i < old(self).key_order(source).len()
                    && blake3_digest(message.encrypted_data@
                        + old(self).keys_of(source)[#[trigger] old(self).key_order(source)[i]].key_material@)
                        == message.quantum_tag@),
            result is Err ==> final(self).channels() == old(self).channels() && final(self).key_store() == old(self).key_store()
                && final(self).events() == old(self).events(),
            final(self).queues() == old(self).queues(),
            final(self).max_keys() == old(self).max_keys(),
            final(self).max_message() == old(self).max_message(),
            result is Ok ==> {
                let i = old(self).first_match(source, message.encrypted_data@, message.quantum_tag@);
                &&& old(self).key_matches(source, i, message.encrypted_data@, message.quantum_tag@)
                &&& forall|j: int| 0 <= j < i ==> !old(self).key_matches(source, j, message.encrypted_data@, message.quantum_tag@)
                &&& final(self).keys_of(source) == old(self).keys_of(source).remove(old(self).key_order(source)[i])
                &&& final(self).other_keys_unchanged(old(self), source)
                &&& final(self).channels() == old(self).channels().insert(source, with_key_used(old(self).channels()[source]))
                &&& final(self).events() == old(self).events().push(Event::QuantumMessageReceived {
                    from_para_id: source,
                    message_size: len_u32(message.encrypted_data@.len()),
                })
            },
    {
        self.handle_message(source, message)
    }

    fn establish_quantum_channel(
        &mut self,
        target: ParaId,
        state_bytes: &[u8],
    ) -> (result: Result<QuantumChannelInfo, MessageSendError>)
    {
        self.establish_channel(target, state_bytes)
    }

    fn generate_quantum_key(
        &mut self,
        target: ParaId,
        protocol: QuantumProtocol,
        state_bytes: &[u8],
    ) -> (result: Result<QuantumChannelKey, MessageSendError>) {
        match self.do_generate_quantum_key(target, protocol, state_bytes) {
            Ok(key) => Ok(key),
            Err(_) => Err(MessageSendError::TemporarilyUnavailable),
        }
    }
}

impl QuantumMessaging {
    /// A message that `send_quantum_message` queued (data encrypted under a key's material and
    /// tagged with that material) authenticates under any key of the receiving channel with the
    /// same material, so `handle_message` accepts it on a ready channel holding such a key.
    pub proof fn lemma_sent_message_authenticates(
        &self,
        source: ParaId,
        message: QuantumSecureXcmpMessage,
        data: Seq<u8>,
        material: Seq<u8>,
        i: int,
    )
        requires
            message.encrypted_data@ == encrypt_spec(data, material),
            message.quantum_tag@ == quantum_tag(message.encrypted_data@, material),
            0 <= i < self.key_order(source).len(),
            self.keys_of(source)[self.key_order(source)[i]].key_material@ == material,
        ensures
            self.key_matches(source, i, message.encrypted_data@, message.quantum_tag@),
            exists|j: int| self.key_matches(source, j, message.encrypted_data@, message.quantum_tag@),
    {
        assert(self.key_matches(source, i, message.encrypted_data@, message.quantum_tag@));
    }
}

impl QuantumMessaging {
    /// In a consistent store, the channels, the queues and each channel's keys are each kept
    /// once, in the order in which the store walks them, and every key is filed under its own id
    /// with at least 32 bytes of material.
    pub proof fn lemma_walk_orders(&self, para: ParaId)
        requires
            self.wf(),
        ensures
            forall|id: Seq<u8>| #[trigger] self.keys_of(para).contains_key(id)
                ==> self.keys_of(para)[id].id@ == id && self.keys_of(para)[id].key_material@.len() >= 32,
            self.channel_order().no_duplicates(),
            self.channel_order().to_set() == self.channels().dom(),
            in_walk_order::<ParaId>(self.channel_order()),
            self.queue_order().no_duplicates(),
            self.queue_order().to_set() == self.queues().dom(),
            in_walk_order::<ParaId>(self.queue_order()),
            self.key_order(para).no_duplicates(),
            self.key_order(para).to_set() == self.keys_of(para).dom(),
            in_walk_order::<[u8; 32]>(self.key_order(para)),
    {
        if self.keys@.contains_key(para) {
            assert(self.keys@[para].walk_wf());
        } else {
            assert(Seq::<Seq<u8>>::empty().to_set() =~= Map::<Seq<u8>, QuantumChannelKey>::empty().dom());
        }
    }
}

} // verus!
