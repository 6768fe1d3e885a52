//! The bridge hub: bridge channels with quantum keys, cross-chain message routing, community
//! proposals and supply chain verification, with every call that changes them.
use vstd::prelude::*;
use crate::bridge_core::{
    BlockchainPlatform, BridgeAccountId, BridgeConfig, BridgeFeeModel, BridgeMessage, BridgeMessageType,
    EntropyProtocol, SecurityConfig,
};
use crate::bridge_core::community::{
    CommunityProposal, SupplyChainEntry, SupplyChainStage, stage_code, stage_index, supply_chain_hash,
    supply_chain_verification_hash,
};
use crate::bridge_core::encoding::{bridge_message_encoding, encode_bridge_message, message_encodable};
use crate::bridge_core::utils::quantum_secure_hash;
use crate::hashing::{blake2_256, blake2_256_digest, blake3_digest};
use crate::keyed_map::{
    KeyedMap, StorageKey, inner_of, lemma_inner_removed, lemma_value_removed, nested_get, nested_insert, nested_len,
    nested_remove,
};
use crate::storage_map::{StorageMap, in_walk_order};
use crate::quantum_channel::QuantumProtocol;
use crate::runtime::{AccountId, Balance, BlockNumber, DispatchError, Origin, ensure_root, ensure_signed};
use crate::scale::copy_all;

verus! {

/// Security level of a generated key pair.
#[derive(Clone, Copy, Debug, PartialEq, Eq, Structural)]
pub enum ThreeNestedSecurityLevel {
    /// The level used for bridge channels.
    High,
}

/// A quantum-resistant key pair for a bridge channel, as the key generator hands it over.
#[derive(Clone, Debug, PartialEq, Eq)]
pub struct QuantumKeyPair {
    pub public_key: Vec<u8>,
    pub secret_key: Vec<u8>,
}

/// Errors of the bridge hub.
#[derive(Clone, Copy, Debug, PartialEq, Eq, Structural)]
pub enum Error {
    /// Bridge already exists.
    BridgeAlreadyExists,
    /// Bridge does not exist.
    BridgeDoesNotExist,
    /// Bridge is not active.
    BridgeNotActive,
    /// Message is too large.
    MessageTooLarge,
    /// Invalid message format.
    InvalidMessage,
    /// Invalid signature.
    InvalidSignature,
    /// No quantum keys available.
    NoQuantumKeysAvailable,
    /// Too many keys for this bridge.
    TooManyKeys,
    /// Message does not exist.
    MessageDoesNotExist,
    /// Fee calculation error.
    FeeCalculationError,
    /// Insufficient balance for fees.
    InsufficientBalance,
    /// Community proposal already exists.
    ProposalAlreadyExists,
    /// Maximum bridges reached.
    MaxBridgesReached,
    /// Supply chain stage regression.
    SupplyChainStageRegression,
    /// Verification hash mismatch.
    VerificationHashMismatch,
}

/// Events of the bridge hub.
#[derive(Clone, Debug, PartialEq, Eq)]
pub enum Event {
    /// A new bridge has been registered.
    BridgeRegistered { platform: BlockchainPlatform, config: BridgeConfig },
    /// A bridge configuration has been updated.
    BridgeUpdated { platform: BlockchainPlatform, config: BridgeConfig },
    /// A bridge has been deactivated.
    BridgeDeactivated { platform: BlockchainPlatform },
    /// A new quantum key has been generated for a bridge.
    QuantumKeyGenerated { platform: BlockchainPlatform, key_index: u32, protocol: QuantumProtocol },
    /// An outbound message has been sent.
    MessageSent {
        platform: BlockchainPlatform,
        message_hash: [u8; 32],
        message_type: BridgeMessageType,
        sender: AccountId,
    },
    /// An outbound message has been confirmed.
    MessageConfirmed { platform: BlockchainPlatform, message_hash: [u8; 32], transaction_hash: Vec<u8> },
    /// An inbound message has been received.
    MessageReceived { platform: BlockchainPlatform, message_hash: [u8; 32], message_type: BridgeMessageType },
    /// A community proposal has been registered.
    CommunityProposalRegistered {
        platform: BlockchainPlatform,
        proposal_id: Vec<u8>,
        title: Vec<u8>,
        funding_amount: u128,
    },
    /// A supply chain entry has been verified.
    SupplyChainEntryVerified { product_id: Vec<u8>, stage: SupplyChainStage, verification_hash: [u8; 32] },
    /// Fees have been collected for a bridge operation.
    FeesCollected { platform: BlockchainPlatform, amount: Balance, account: AccountId },
}

/// What the payload of a received message decodes to, as the runtime's codec read it.
#[derive(Clone, Debug, PartialEq, Eq)]
pub enum DecodedPayload {
    /// A community proposal.
    Proposal(CommunityProposal),
    /// A supply chain entry.
    SupplyChain(SupplyChainEntry),
    /// Neither.
    Undecodable,
}

/// Two configurations with the same fields (byte strings compared by content).
pub open spec fn same_config(a: BridgeConfig, b: BridgeConfig) -> bool {
    &&& a.platform == b.platform
    &&& a.endpoint is Some <==> b.endpoint is Some
    &&& a.endpoint is Some ==> a.endpoint.unwrap()@ == b.endpoint.unwrap()@
    &&& a.contract_address is Some <==> b.contract_address is Some
    &&& a.contract_address is Some ==> a.contract_address.unwrap()@ == b.contract_address.unwrap()@
    &&& a.max_message_size == b.max_message_size
    &&& a.required_confirmations == b.required_confirmations
    &&& a.active == b.active
    &&& same_fee_model(a.fee_model, b.fee_model)
    &&& a.security_config == b.security_config
}

/// Two fee models of the same kind and amounts.
pub open spec fn same_fee_model(a: BridgeFeeModel, b: BridgeFeeModel) -> bool {
    match (a, b) {
        (BridgeFeeModel::Fixed(x), BridgeFeeModel::Fixed(y)) => x == y,
        (BridgeFeeModel::Percentage(x), BridgeFeeModel::Percentage(y)) => x == y,
        (BridgeFeeModel::Tiered(x), BridgeFeeModel::Tiered(y)) => x@ == y@,
        (BridgeFeeModel::NoFee, BridgeFeeModel::NoFee) => true,
        _ => false,
    }
}

/// The fee of the first tier whose threshold is at least the message size.
pub open spec fn first_tier_fee(tiers: Seq<(u128, u128)>, size: u32) -> Option<u128>
    decreases tiers.len(),
{
    if tiers.len() == 0 {
        None
    } else if size <= tiers[0].0 {
        Some(tiers[0].1)
    } else {
        first_tier_fee(tiers.subrange(1, tiers.len() as int), size)
    }
}

/// The fee of a bridge operation under a fee model: the fixed amount; basis points of a base
/// fee of one million; the first tier the message size fits, else the last tier (no tiers is
/// an error); or nothing.
pub open spec fn fee_for(model: BridgeFeeModel, size: u32) -> Option<u128> {
    match model {
        BridgeFeeModel::Fixed(amount) => Some(amount),
        BridgeFeeModel::Percentage(bp) => Some((1_000_000 * bp / 10_000) as u128),
        BridgeFeeModel::Tiered(tiers) => match first_tier_fee(tiers@, size) {
            Some(f) => Some(f),
            None => if tiers@.len() > 0 { Some(tiers@.last().1) } else { None },
        },
        BridgeFeeModel::NoFee => Some(0),
    }
}

/// The configuration that `register_bridge` stores.
pub open spec fn registered_config(
    platform: BlockchainPlatform,
    endpoint: Seq<u8>,
    contract_address: Option<Vec<u8>>,
    max_message_size: u32,
    required_confirmations: u32,
    use_quantum_security: bool,
    entropy_protocol: EntropyProtocol,
    size_cap: u32,
    config: BridgeConfig,
) -> bool {
    &&& config.platform == platform
    &&& config.endpoint is Some && config.endpoint.unwrap()@ == endpoint
    &&& config.contract_address is Some <==> contract_address is Some
    &&& config.contract_address is Some ==> config.contract_address.unwrap()@ == contract_address.unwrap()@
    &&& config.max_message_size == if max_message_size < size_cap { max_message_size } else { size_cap }
    &&& config.required_confirmations == required_confirmations
    &&& config.active
    &&& config.fee_model == BridgeFeeModel::Fixed(1_000_000)
    &&& config.security_config == (SecurityConfig {
        use_quantum_security,
        required_validators: 3,
        entropy_protocol,
        challenge_timeout: 100,
    })
}

/// Whether the stages of a product's history never go backwards.
pub open spec fn stages_non_decreasing(history: Seq<SupplyChainEntry>) -> bool {
    forall|i: int, j: int| 0 <= i <= j < history.len() ==> stage_code(history[i].stage) <= stage_code(history[j].stage)
}

/// The 32-byte account of the pallet: `modl`, the pallet id `bridgexx`, then zeros.
pub open spec fn pallet_account() -> Seq<u8> {
    seq![109u8, 111u8, 100u8, 108u8, 98u8, 114u8, 105u8, 100u8, 103u8, 101u8, 120u8, 120u8]
        + Seq::new(20, |i: int| 0u8)
}

/// Every stored next key index is below the channel limit.
pub closed spec fn index_wf(next: Map<BlockchainPlatform, u32>, max: u32) -> bool {
    forall|p: BlockchainPlatform| #[trigger] next.contains_key(p) ==> next[p] < max
}

/// Every stored key index is below the channel limit.
pub closed spec fn keystore_wf(keys: Map<BlockchainPlatform, KeyedMap<u32, QuantumKeyPair>>, max: u32) -> bool {
    forall|p: BlockchainPlatform, i: u32| #[trigger] inner_of(keys, p).contains_key(i) ==> i < max
}

/// The history of a product in a supply chain store.
pub closed spec fn history_in(supply: Map<Seq<u8>, Vec<SupplyChainEntry>>, product: Seq<u8>) -> Seq<SupplyChainEntry> {
    if supply.contains_key(product) { supply[product]@ } else { Seq::empty() }
}

/// No product's history goes backwards.
pub closed spec fn supply_wf(supply: Map<Seq<u8>, Vec<SupplyChainEntry>>) -> bool {
    forall|product: Seq<u8>| #[trigger] stages_non_decreasing(history_in(supply, product))
}

/// The storage of the bridge hub.
pub struct BridgeHub {
    max_bridges: u32,
    max_message_size: u32,
    max_keys_per_channel: u32,
    bridges: StorageMap<BlockchainPlatform, BridgeConfig>,
    bridge_keys: KeyedMap<BlockchainPlatform, KeyedMap<u32, QuantumKeyPair>>,
    next_key_index: KeyedMap<BlockchainPlatform, u32>,
    outbound: KeyedMap<BlockchainPlatform, KeyedMap<[u8; 32], (BridgeMessage, AccountId)>>,
    inbound: KeyedMap<BlockchainPlatform, KeyedMap<[u8; 32], BridgeMessage>>,
    proposals: KeyedMap<BlockchainPlatform, KeyedMap<Vec<u8>, CommunityProposal>>,
    supply_chain: KeyedMap<Vec<u8>, Vec<SupplyChainEntry>>,
    fee_reserves: KeyedMap<BlockchainPlatform, Balance>,
    events: Vec<Event>,
}

impl BridgeHub {
    /// The most bridges that may be registered.
    pub closed spec fn max_bridges(&self) -> u32 {
        self.max_bridges
    }

    /// The largest message size a bridge may be configured for.
    pub closed spec fn max_message(&self) -> u32 {
        self.max_message_size
    }

    /// The most keys a bridge channel may hold.
    pub closed spec fn max_keys(&self) -> u32 {
        self.max_keys_per_channel
    }

    /// The bridge configurations, by platform.
    pub closed spec fn bridges(&self) -> Map<BlockchainPlatform, BridgeConfig> {
        self.bridges@
    }

    /// The quantum keys of a bridge channel, by key index.
    pub closed spec fn keys_of(&self, p: BlockchainPlatform) -> Map<u32, QuantumKeyPair> {
        inner_of(self.bridge_keys@, p)
    }

    /// The next key index of a bridge channel (zero when none was stored).
    pub closed spec fn next_index(&self, p: BlockchainPlatform) -> u32 {
        if self.next_key_index@.contains_key(p) { self.next_key_index@[p] } else { 0 }
    }

    /// The outbound messages of a bridge that wait for confirmation, by message hash.
    pub closed spec fn outbound_of(&self, p: BlockchainPlatform) -> Map<Seq<u8>, (BridgeMessage, AccountId)> {
        inner_of(self.outbound@, p)
    }

    /// The verified inbound messages of a bridge, by message hash.
    pub closed spec fn inbound_of(&self, p: BlockchainPlatform) -> Map<Seq<u8>, BridgeMessage> {
        inner_of(self.inbound@, p)
    }

    /// The community proposals registered for a bridge, by proposal id.
    pub closed spec fn proposals_of(&self, p: BlockchainPlatform) -> Map<Seq<u8>, CommunityProposal> {
        inner_of(self.proposals@, p)
    }

    /// The supply chain history of a product, oldest first.
    pub closed spec fn supply_history(&self, product: Seq<u8>) -> Seq<SupplyChainEntry> {
        history_in(self.supply_chain@, product)
    }

    /// The fees reserved for a bridge.
    pub closed spec fn fee_reserve(&self, p: BlockchainPlatform) -> Balance {
        if self.fee_reserves@.contains_key(p) { self.fee_reserves@[p] } else { 0 }
    }

    /// The events emitted so far.
    pub closed spec fn events(&self) -> Seq<Event> {
        self.events@
    }

    /// The storage is consistent: the bridges are kept in the order in which the store walks
    /// them, key indices stay below the channel limit, and no product's supply chain history goes
    /// backwards.
    pub closed spec fn wf(&self) -> bool {
        &&& self.bridges.walk_wf()
        &&& index_wf(self.next_key_index@, self.max_keys_per_channel)
        &&& keystore_wf(self.bridge_keys@, self.max_keys_per_channel)
        &&& supply_wf(self.supply_chain@)
    }

    /// Everything but the events is the same in both states.
    pub closed spec fn same_storage(&self, other: &BridgeHub) -> bool {
        &&& self.max_bridges == other.max_bridges
        &&& self.max_message_size == other.max_message_size
        &&& self.max_keys_per_channel == other.max_keys_per_channel
        &&& self.bridges@ == other.bridges@
        &&& self.bridge_keys@ == other.bridge_keys@
        &&& self.next_key_index@ == other.next_key_index@
        &&& self.outbound@ == other.outbound@
        &&& self.inbound@ == other.inbound@
        &&& self.proposals@ == other.proposals@
        &&& self.supply_chain@ == other.supply_chain@
        &&& self.fee_reserves@ == other.fee_reserves@
    }

    /// Nothing at all has changed.
    pub open spec fn unchanged(&self, other: &BridgeHub) -> bool {
        self.same_storage(other) && self.events() == other.events()
    }

    /// An empty hub with the given limits.
    pub fn new(max_bridges: u32, max_message_size: u32, max_keys_per_channel: u32) -> (hub: BridgeHub)
        ensures
            hub.wf(),
            hub.max_bridges() == max_bridges,
            hub.max_message() == max_message_size,
            hub.max_keys() == max_keys_per_channel,
            hub.bridges() == Map::<BlockchainPlatform, BridgeConfig>::empty(),
            forall|p: BlockchainPlatform| hub.keys_of(p) == Map::<u32, QuantumKeyPair>::empty(),
            forall|p: BlockchainPlatform| hub.next_index(p) == 0,
            forall|p: BlockchainPlatform| hub.fee_reserve(p) == 0,
            forall|product: Seq<u8>| hub.supply_history(product).len() == 0,
            hub.events().len() == 0,
    {
        let hub = BridgeHub {
            max_bridges,
            max_message_size,
            max_keys_per_channel,
            bridges: StorageMap::new(),
            bridge_keys: KeyedMap::new(),
            next_key_index: KeyedMap::new(),
            outbound: KeyedMap::new(),
            inbound: KeyedMap::new(),
            proposals: KeyedMap::new(),
            supply_chain: KeyedMap::new(),
            fee_reserves: KeyedMap::new(),
            events: Vec::new(),
        };
        assert forall|product: Seq<u8>| #[trigger] stages_non_decreasing(history_in(hub.supply_chain@, product)) by {}
        hub
    }

    /// The events emitted so far.
    pub fn event_log(&self) -> (events: &[Event])
        ensures
            events@ == self.events(),
    {
        self.events.as_slice()
    }

    /// The configuration of a bridge.
    pub fn bridge(&self, p: BlockchainPlatform) -> (config: Option<&BridgeConfig>)
        ensures
            match config {
                Some(c) => self.bridges().contains_key(p) && *c == self.bridges()[p],
                None => !self.bridges().contains_key(p),
            },
    {
        self.bridges.get(&p)
    }

    /// The number of registered bridges.
    pub fn bridge_count(&self) -> (n: usize)
        ensures
            n == self.bridges().dom().len(),
    {
        self.bridges.len()
    }

    /// The number of keys of a bridge channel.
    pub fn key_count(&self, p: BlockchainPlatform) -> (n: usize)
        ensures
            n == self.keys_of(p).dom().len(),
    {
        nested_len(&self.bridge_keys, &p)
    }

    /// The next key index of a bridge channel.
    pub fn next_key_index(&self, p: BlockchainPlatform) -> (i: u32)
        ensures
            i == self.next_index(p),
    {
        match self.next_key_index.get(&p) {
            Some(i) => *i,
            None => 0,
        }
    }

    /// The fees reserved for a bridge.
    pub fn fees_reserved(&self, p: BlockchainPlatform) -> (amount: Balance)
        ensures
            amount == self.fee_reserve(p),
    {
        match self.fee_reserves.get(&p) {
            Some(a) => *a,
            None => 0,
        }
    }

    /// Whether an outbound message waits for confirmation.
    pub fn has_outbound(&self, p: BlockchainPlatform, message_hash: &[u8; 32]) -> (present: bool)
        ensures
            present == self.outbound_of(p).contains_key(message_hash@),
    {
        nested_get(&self.outbound, &p, message_hash).is_some()
    }

    /// Whether an inbound message is stored.
    pub fn has_inbound(&self, p: BlockchainPlatform, message_hash: &[u8; 32]) -> (present: bool)
        ensures
            present == self.inbound_of(p).contains_key(message_hash@),
    {
        nested_get(&self.inbound, &p, message_hash).is_some()
    }

    /// A registered community proposal.
    pub fn proposal(&self, p: BlockchainPlatform, id: &Vec<u8>) -> (proposal: Option<&CommunityProposal>)
        ensures
            match proposal {
                Some(x) => self.proposals_of(p).contains_key(id@) && *x == self.proposals_of(p)[id@],
                None => !self.proposals_of(p).contains_key(id@),
            },
    {
        nested_get(&self.proposals, &p, id)
    }

    /// The supply chain history of a product.
    pub fn supply_chain_history(&self, product: &Vec<u8>) -> (history: &[SupplyChainEntry])
        ensures
            history@ == self.supply_history(product@),
    {
        match self.supply_chain.get(product) {
            Some(h) => h.as_slice(),
            None => &[],
        }
    }
}

fn copy_option_bytes(o: &Option<Vec<u8>>) -> (c: Option<Vec<u8>>)
    ensures
        c is Some <==> o is Some,
        c is Some ==> c.unwrap()@ == o.unwrap()@,
{
    match o {
        Some(v) => Some(copy_all(v.as_slice())),
        None => None,
    }
}

fn copy_fee_model(m: &BridgeFeeModel) -> (c: BridgeFeeModel)
    ensures
        same_fee_model(c, *m),
{
    match m {
        BridgeFeeModel::Fixed(a) => BridgeFeeModel::Fixed(*a),
        BridgeFeeModel::Percentage(b) => BridgeFeeModel::Percentage(*b),
        BridgeFeeModel::Tiered(tiers) => {
            let mut out: Vec<(u128, u128)> = Vec::new();
            let mut i: usize = 0;
            while i < tiers.len()
                invariant
                    0 <= i <= tiers@.len(),
                    out@ == tiers@.subrange(0, i as int),
                decreases tiers@.len() - i,
            {
                out.push(tiers[i]);
                i = i + 1;
                assert(out@ =~= tiers@.subrange(0, i as int));
            }
            assert(tiers@.subrange(0, tiers@.len() as int) =~= tiers@);
            BridgeFeeModel::Tiered(out)
        },
        BridgeFeeModel::NoFee => BridgeFeeModel::NoFee,
    }
}

/// A copy of a configuration with the same fields.
pub fn copy_config(c: &BridgeConfig) -> (d: BridgeConfig)
    ensures
        same_config(d, *c),
{
    BridgeConfig {
        platform: c.platform,
        endpoint: copy_option_bytes(&c.endpoint),
        contract_address: copy_option_bytes(&c.contract_address),
        max_message_size: c.max_message_size,
        required_confirmations: c.required_confirmations,
        active: c.active,
        fee_model: copy_fee_model(&c.fee_model),
        security_config: c.security_config,
    }
}

/// Calculate fees for a bridge operation (see `fee_for`).
pub fn calculate_fee(
    config: &BridgeConfig,
    message_type: &BridgeMessageType,
    message_size: u32,
) -> (fee: Result<u128, Error>)
    ensures
        match fee_for(config.fee_model, message_size) {
            Some(f) => fee == Ok::<u128, Error>(f),
            None => fee == Err::<u128, Error>(Error::FeeCalculationError),
        },
{
    match &config.fee_model {
        BridgeFeeModel::Fixed(amount) => Ok(*amount),
        BridgeFeeModel::Percentage(basis_points) => {
            let base_fee: u128 = 1_000_000;
            let fee = base_fee * (*basis_points as u128) / 10_000;
            Ok(fee)
        },
        BridgeFeeModel::Tiered(tiers) => {
            let mut i: usize = 0;
            assert(tiers@.subrange(0, tiers@.len() as int) =~= tiers@);
            while i < tiers.len()
                invariant
                    0 <= i <= tiers@.len(),
                    config.fee_model == BridgeFeeModel::Tiered(*tiers),
                    first_tier_fee(tiers@, message_size) == first_tier_fee(tiers@.subrange(i as int, tiers@.len() as int), message_size),
                decreases tiers@.len() - i,
            {
                let (threshold, fee) = tiers[i];
                assert(tiers@.subrange(i as int, tiers@.len() as int)[0] == tiers@[i as int]);
                if (message_size as u128) <= threshold {
                    assert(first_tier_fee(tiers@.subrange(i as int, tiers@.len() as int), message_size) == Some(fee));
                    assert(first_tier_fee(tiers@, message_size) == Some(fee));
                    assert(fee_for(config.fee_model, message_size) == Some(fee));
                    return Ok(fee);
                }
                assert(tiers@.subrange(i as int, tiers@.len() as int).subrange(1, tiers@.len() - i)
                    =~= tiers@.subrange(i + 1, tiers@.len() as int));
                i = i + 1;
            }
            assert(tiers@.subrange(0, tiers@.len() as int) =~= tiers@);
            if tiers.len() > 0 {
                Ok(tiers[tiers.len() - 1].1)
            } else {
                Err(Error::FeeCalculationError)
            }
        },
        BridgeFeeModel::NoFee => Ok(0),
    }
}

/// Account ID of the pallet: `modl`, the pallet id `bridgexx`, then zeros.
pub fn account_id() -> (account: AccountId)
    ensures
        account@ == pallet_account(),
{
    let account: AccountId = [109, 111, 100, 108, 98, 114, 105, 100, 103, 101, 120, 120,
        0, 0, 0, 0, 0, 0, 0, 0, 0, 0, 0, 0, 0, 0, 0, 0, 0, 0, 0, 0];
    assert(account@ =~= pallet_account());
    account
}

impl BridgeHub {
    /// Only the key store of one platform changed: its key map and its next key index.
    pub closed spec fn keys_changed_only_for(&self, other: &BridgeHub, p: BlockchainPlatform) -> bool {
        &&& self.bridge_keys@.remove(p) == other.bridge_keys@.remove(p)
        &&& self.next_key_index@.remove(p) == other.next_key_index@.remove(p)
        &&& self.max_bridges == other.max_bridges
        &&& self.max_message_size == other.max_message_size
        &&& self.max_keys_per_channel == other.max_keys_per_channel
        &&& self.bridges@ == other.bridges@
        &&& self.outbound@ == other.outbound@
        &&& self.inbound@ == other.inbound@
        &&& self.proposals@ == other.proposals@
        &&& self.supply_chain@ == other.supply_chain@
        &&& self.fee_reserves@ == other.fee_reserves@
    }

    /// Only the bridge records and the key store of `p` changed.
    pub closed spec fn registration_changed_only(&self, other: &BridgeHub, p: BlockchainPlatform) -> bool {
        &&& self.bridge_keys@.remove(p) == other.bridge_keys@.remove(p)
        &&& self.next_key_index@.remove(p) == other.next_key_index@.remove(p)
        &&& self.max_bridges == other.max_bridges
        &&& self.max_message_size == other.max_message_size
        &&& self.max_keys_per_channel == other.max_keys_per_channel
        &&& self.outbound@ == other.outbound@
        &&& self.inbound@ == other.inbound@
        &&& self.proposals@ == other.proposals@
        &&& self.supply_chain@ == other.supply_chain@
        &&& self.fee_reserves@ == other.fee_reserves@
    }

    /// Only the outbound messages, the next key index and the fee reserve of `p` changed.
    pub closed spec fn outbound_changed_only(&self, other: &BridgeHub, p: BlockchainPlatform) -> bool {
        &&& self.max_bridges == other.max_bridges
        &&& self.max_message_size == other.max_message_size
        &&& self.max_keys_per_channel == other.max_keys_per_channel
        &&& self.bridges@ == other.bridges@
        &&& self.bridge_keys@ == other.bridge_keys@
        &&& self.next_key_index@.remove(p) == other.next_key_index@.remove(p)
        &&& self.outbound@.remove(p) == other.outbound@.remove(p)
        &&& self.inbound@ == other.inbound@
        &&& self.proposals@ == other.proposals@
        &&& self.supply_chain@ == other.supply_chain@
        &&& self.fee_reserves@.remove(p) == other.fee_reserves@.remove(p)
    }

    /// Every platform other than `p` has the same keys and next key index in both states.
    pub proof fn lemma_other_keys(&self, other: &BridgeHub, p: BlockchainPlatform)
        requires
            self.keys_changed_only_for(other, p),
        ensures
            forall|q: BlockchainPlatform| q != p ==> self.keys_of(q) == other.keys_of(q) && self.next_index(q) == other.next_index(q),
            self.bridges() == other.bridges(),
    {
        assert forall|q: BlockchainPlatform| q != p implies self.keys_of(q) == other.keys_of(q) && self.next_index(q) == other.next_index(q) by {
            assert(self.bridge_keys@.remove(p).contains_key(q) == self.bridge_keys@.contains_key(q));
            assert(other.bridge_keys@.remove(p).contains_key(q) == other.bridge_keys@.contains_key(q));
            assert(self.next_key_index@.remove(p).contains_key(q) == self.next_key_index@.contains_key(q));
            assert(other.next_key_index@.remove(p).contains_key(q) == other.next_key_index@.contains_key(q));
            if self.bridge_keys@.contains_key(q) {
                assert(self.bridge_keys@[q] == self.bridge_keys@.remove(p)[q]);
                assert(other.bridge_keys@[q] == other.bridge_keys@.remove(p)[q]);
            }
            if self.next_key_index@.contains_key(q) {
                assert(self.next_key_index@[q] == self.next_key_index@.remove(p)[q]);
                assert(other.next_key_index@[q] == other.next_key_index@.remove(p)[q]);
            }
        }
    }

    /// Generate a quantum key for a bridge: the key pair is stored at the channel's next key
    /// index, which then advances modulo the channel limit. Fails, changing nothing, when the
    /// channel already holds the most keys.
    pub fn generate_quantum_key_internal(
        &mut self,
        platform: BlockchainPlatform,
        protocol: QuantumProtocol,
        security_level: ThreeNestedSecurityLevel,
        key_pair: QuantumKeyPair,
    ) -> (result: Result<(), DispatchError<Error>>)
        requires
            old(self).wf(),
        ensures
            final(self).wf(),
            result is Ok <==> old(self).keys_of(platform).dom().len() < old(self).max_keys(),
            result is Err ==> result == Err::<(), DispatchError<Error>>(DispatchError::Module(Error::TooManyKeys))
                && final(self).unchanged(old(self)),
            result is Ok ==> {
                &&& final(self).keys_of(platform) == old(self).keys_of(platform).insert(old(self).next_index(platform), key_pair)
                &&& final(self).next_index(platform) == (old(self).next_index(platform) + 1) % (old(self).max_keys() as int)
                &&& final(self).keys_changed_only_for(old(self), platform)
                &&& final(self).events() == old(self).events().push(Event::QuantumKeyGenerated {
                    platform,
                    key_index: old(self).next_index(platform),
                    protocol,
                })
            },
    {
        let key_count = nested_len(&self.bridge_keys, &platform);
        if key_count >= self.max_keys_per_channel as usize {
            return Err(DispatchError::Module(Error::TooManyKeys));
        }
        let key_index = self.next_key_index(platform);
        let ghost old_self = *self;
        nested_insert(&mut self.bridge_keys, &platform, key_index, key_pair);
        let next = (key_index + 1) % self.max_keys_per_channel;
        self.next_key_index.insert(platform, next);
        self.events.push(Event::QuantumKeyGenerated { platform, key_index, protocol });
        proof {
            assert(self.next_key_index@.remove(platform) =~= old_self.next_key_index@.remove(platform));
            assert forall|q: BlockchainPlatform, i: u32| #[trigger] inner_of(self.bridge_keys@, q).contains_key(i) implies i < self.max_keys_per_channel by {
                if q != platform {
                    assert(self.bridge_keys@.remove(platform).contains_key(q) == self.bridge_keys@.contains_key(q));
                    if self.bridge_keys@.contains_key(q) {
                        assert(self.bridge_keys@[q] == old_self.bridge_keys@.remove(platform)[q]);
                    }
                    assert(inner_of(old_self.bridge_keys@, q).contains_key(i));
                } else if i != key_index {
                    assert(inner_of(old_self.bridge_keys@, q).contains_key(i));
                }
            }
            assert forall|q: BlockchainPlatform| #[trigger] self.next_key_index@.contains_key(q)
                implies self.next_key_index@[q] < self.max_keys_per_channel by {
                if q != platform {
                    assert(old_self.next_key_index@.contains_key(q));
                }
            }
        }
        Ok(())
    }

    /// Register a new blockchain bridge (admin origin): the bridge gets the configuration of
    /// `registered_config` and a first quantum key (`key_pair`). Fails, changing nothing, when
    /// the most bridges are registered, the platform has a bridge, or its channel is full.
    pub fn register_bridge(
        &mut self,
        origin: Origin,
        platform: BlockchainPlatform,
        endpoint: Vec<u8>,
        contract_address: Option<Vec<u8>>,
        max_message_size: u32,
        required_confirmations: u32,
        use_quantum_security: bool,
        entropy_protocol: EntropyProtocol,
        key_pair: QuantumKeyPair,
    ) -> (result: Result<(), DispatchError<Error>>)
        requires
            old(self).wf(),
        ensures
            final(self).wf(),
            !(origin is Root) ==> result == Err::<(), DispatchError<Error>>(DispatchError::BadOrigin),
            origin is Root && old(self).bridges().dom().len() >= old(self).max_bridges()
                ==> result == Err::<(), DispatchError<Error>>(DispatchError::Module(Error::MaxBridgesReached)),
            origin is Root && old(self).bridges().dom().len() < old(self).max_bridges() && old(self).bridges().contains_key(platform)
                ==> result == Err::<(), DispatchError<Error>>(DispatchError::Module(Error::BridgeAlreadyExists)),
            origin is Root && old(self).bridges().dom().len() < old(self).max_bridges() && !old(self).bridges().contains_key(platform)
                && old(self).keys_of(platform).dom().len() >= old(self).max_keys()
                ==> result == Err::<(), DispatchError<Error>>(DispatchError::Module(Error::TooManyKeys)),
            result is Ok <==> (origin is Root && old(self).bridges().dom().len() < old(self).max_bridges()
                && !old(self).bridges().contains_key(platform) && old(self).keys_of(platform).dom().len() < old(self).max_keys()),
            result is Err ==> final(self).unchanged(old(self)),
            result is Ok ==> {
                &&& final(self).registration_changed_only(old(self), platform)
                &&& final(self).bridges().dom() == old(self).bridges().dom().insert(platform)
                &&& final(self).bridges().remove(platform) == old(self).bridges().remove(platform)
                &&& registered_config(platform, endpoint@, contract_address, max_message_size, required_confirmations,
                    use_quantum_security, entropy_protocol, old(self).max_message(), final(self).bridges()[platform])
                &&& final(self).keys_of(platform) == old(self).keys_of(platform).insert(old(self).next_index(platform), key_pair)
                &&& final(self).next_index(platform) == (old(self).next_index(platform) + 1) % (old(self).max_keys() as int)
                &&& final(self).events().len() == old(self).events().len() + 2
                &&& final(self).events()[old(self).events().len() as int] == Event::QuantumKeyGenerated {
                    platform,
                    key_index: old(self).next_index(platform),
                    protocol: QuantumProtocol::ThriceNestedStereo,
                }
                &&& final(self).events().last() matches Event::BridgeRegistered { platform: p, config: c }
                    && p == platform && same_config(c, final(self).bridges()[platform])
            },
    {
        ensure_root(origin)?;
        if self.bridges.len() >= self.max_bridges as usize {
            return Err(DispatchError::Module(Error::MaxBridgesReached));
        }
        if self.bridges.contains_key(&platform) {
            return Err(DispatchError::Module(Error::BridgeAlreadyExists));
        }
        if nested_len(&self.bridge_keys, &platform) >= self.max_keys_per_channel as usize {
            return Err(DispatchError::Module(Error::TooManyKeys));
        }
        let fee_model = BridgeFeeModel::Fixed(1_000_000);
        let security_config = SecurityConfig {
            use_quantum_security,
            required_validators: 3,
            entropy_protocol,
            challenge_timeout: 100,
        };
        let size = if max_message_size < self.max_message_size { max_message_size } else { self.max_message_size };
        let config = BridgeConfig {
            platform,
            endpoint: Some(endpoint),
            contract_address,
            max_message_size: size,
            required_confirmations,
            active: true,
            fee_model,
            security_config,
        };
        let event_config = copy_config(&config);
        let ghost before_insert = *self;
        self.bridges.insert(platform, config);
        proof {
            assert(self.keys_of(platform) == before_insert.keys_of(platform));
            assert(self.next_index(platform) == before_insert.next_index(platform));
        }
        let ghost after_insert = *self;
        let generated = self.generate_quantum_key_internal(
            platform,
            QuantumProtocol::ThriceNestedStereo,
            ThreeNestedSecurityLevel::High,
            key_pair,
        );
        assert(generated is Ok);
        self.events.push(Event::BridgeRegistered { platform, config: event_config });
        proof {
            assert(self.bridges@.dom() =~= old(self).bridges@.dom().insert(platform));
            assert(self.bridges@.remove(platform) =~= old(self).bridges@.remove(platform));
        }
        Ok(())
    }
}

/// A configuration updated field by field: each given value replaces the old one; the message
/// size is capped at `size_cap`.
pub open spec fn updated_config(
    old_config: BridgeConfig,
    new_config: BridgeConfig,
    endpoint: Option<Vec<u8>>,
    contract_address: Option<Vec<u8>>,
    max_message_size: Option<u32>,
    required_confirmations: Option<u32>,
    active: Option<bool>,
    size_cap: u32,
) -> bool {
    &&& new_config.platform == old_config.platform
    &&& match endpoint {
        Some(e) => new_config.endpoint is Some && new_config.endpoint.unwrap()@ == e@,
        None => new_config.endpoint == old_config.endpoint,
    }
    &&& match contract_address {
        Some(a) => new_config.contract_address is Some && new_config.contract_address.unwrap()@ == a@,
        None => new_config.contract_address == old_config.contract_address,
    }
    &&& new_config.max_message_size == match max_message_size {
        Some(m) => if m < size_cap { m } else { size_cap },
        None => old_config.max_message_size,
    }
    &&& new_config.required_confirmations == match required_confirmations {
        Some(r) => r,
        None => old_config.required_confirmations,
    }
    &&& new_config.active == match active {
        Some(a) => a,
        None => old_config.active,
    }
    &&& new_config.fee_model == old_config.fee_model
    &&& new_config.security_config == old_config.security_config
}

/// The message that `send_message` files: from Polkadot to the bridge's platform, signed by the
/// sender's account, with the payload's BLAKE3 hash, the current time and the key index as nonce.
pub open spec fn outgoing_message(
    m: BridgeMessage,
    platform: BlockchainPlatform,
    message_type: BridgeMessageType,
    sender: AccountId,
    target_account: BridgeAccountId,
    payload: Seq<u8>,
    now_ms: u64,
    nonce: u32,
) -> bool {
    &&& m.source == BlockchainPlatform::Polkadot
    &&& m.target == platform
    &&& m.message_type == message_type
    &&& m.sender is Substrate && m.sender->Substrate_0@ == sender@
    &&& m.recipient == target_account
    &&& m.payload@ == payload
    &&& m.quantum_hash@ == blake3_digest(payload)
    &&& m.timestamp == Some(now_ms)
    &&& m.nonce == nonce as u64
}

/// The hash under which a message is filed: BLAKE2b-256 of its SCALE encoding.
pub open spec fn message_hash(m: BridgeMessage) -> Seq<u8> {
    blake2_256_digest(bridge_message_encoding(m))
}

/// The proposal that `register_community_proposal_direct` stores.
pub open spec fn direct_proposal(
    p: CommunityProposal,
    title: Seq<u8>,
    description: Vec<u8>,
    funding_amount: u128,
    sender: AccountId,
    target_communities: Vec<Vec<u8>>,
    sustainability_metrics: Vec<(Vec<u8>, Vec<u8>)>,
    source_id: Seq<u8>,
) -> bool {
    &&& p.title@ == title
    &&& p.description == description
    &&& p.funding_amount == funding_amount
    &&& p.creator is Substrate && p.creator->Substrate_0@ == sender@
    &&& p.target_communities == target_communities
    &&& p.sustainability_metrics == sustainability_metrics
    &&& p.source_chain == BlockchainPlatform::Polkadot
    &&& p.source_id@ == source_id
}

/// Whether an entry may follow a product's history: the history is empty or its last stage is
/// not later than the entry's.
pub open spec fn may_follow(history: Seq<SupplyChainEntry>, stage: SupplyChainStage) -> bool {
    history.len() == 0 || stage_code(history.last().stage) <= stage_code(stage)
}

/// Whether an entry carries the verification hash of its own fields.
pub open spec fn entry_hash_valid(e: SupplyChainEntry) -> bool {
    e.verification_hash@ == supply_chain_hash(e.product_id@, e.producer_id@, e.location@, e.timestamp, e.certifications@, e.stage)
}

fn account_bytes_of(account: &AccountId) -> (bytes: Vec<u8>)
    ensures
        bytes@ == account@,
{
    copy_all(account.as_slice())
}

impl BridgeHub {
    /// Only the bridge map changed.
    pub closed spec fn bridges_changed_only(&self, other: &BridgeHub) -> bool {
        &&& self.max_bridges == other.max_bridges
        &&& self.max_message_size == other.max_message_size
        &&& self.max_keys_per_channel == other.max_keys_per_channel
        &&& self.bridge_keys@ == other.bridge_keys@
        &&& self.next_key_index@ == other.next_key_index@
        &&& self.outbound@ == other.outbound@
        &&& self.inbound@ == other.inbound@
        &&& self.proposals@ == other.proposals@
        &&& self.supply_chain@ == other.supply_chain@
        &&& self.fee_reserves@ == other.fee_reserves@
    }

    /// Update an existing blockchain bridge (admin origin): every given field replaces the stored
    /// one, the message size capped at the pallet's limit.
    pub fn update_bridge(
        &mut self,
        origin: Origin,
        platform: BlockchainPlatform,
        endpoint: Option<Vec<u8>>,
        contract_address: Option<Vec<u8>>,
        max_message_size: Option<u32>,
        required_confirmations: Option<u32>,
        active: Option<bool>,
    ) -> (result: Result<(), DispatchError<Error>>)
        requires
            old(self).wf(),
        ensures
            final(self).wf(),
            !(origin is Root) ==> result == Err::<(), DispatchError<Error>>(DispatchError::BadOrigin),
            origin is Root && !old(self).bridges().contains_key(platform)
                ==> result == Err::<(), DispatchError<Error>>(DispatchError::Module(Error::BridgeDoesNotExist)),
            result is Ok <==> (origin is Root && old(self).bridges().contains_key(platform)),
            result is Err ==> final(self).unchanged(old(self)),
            result is Ok ==> {
                &&& final(self).bridges_changed_only(old(self))
                &&& final(self).bridges().dom() == old(self).bridges().dom()
                &&& final(self).bridges().remove(platform) == old(self).bridges().remove(platform)
                &&& updated_config(old(self).bridges()[platform], final(self).bridges()[platform], endpoint,
                    contract_address, max_message_size, required_confirmations, active, old(self).max_message())
                &&& final(self).events().len() == old(self).events().len() + 1
                &&& final(self).events().last() matches Event::BridgeUpdated { platform: p, config: c }
                    && p == platform && same_config(c, final(self).bridges()[platform])
            },
    {
        ensure_root(origin)?;
        let mut config = match self.bridges.remove(&platform) {
            Some(c) => c,
            None => {
                assert(self.bridges@ =~= old(self).bridges@);
                return Err(DispatchError::Module(Error::BridgeDoesNotExist));
            },
        };
        let ghost old_config = config;
        let endpoint_given = match endpoint { Some(e) => Some(copy_all(e.as_slice())), None => None };
        if let Some(e) = endpoint_given {
            config.endpoint = Some(e);
        }
        let address_given = match contract_address { Some(a) => Some(copy_all(a.as_slice())), None => None };
        if let Some(a) = address_given {
            config.contract_address = Some(a);
        }
        if let Some(m) = max_message_size {
            config.max_message_size = if m < self.max_message_size { m } else { self.max_message_size };
        }
        if let Some(r) = required_confirmations {
            config.required_confirmations = r;
        }
        if let Some(a) = active {
            config.active = a;
        }
        assert(updated_config(old_config, config, endpoint, contract_address, max_message_size,
            required_confirmations, active, self.max_message_size));
        let event_config = copy_config(&config);
        self.bridges.insert(platform, config);
        self.events.push(Event::BridgeUpdated { platform, config: event_config });
        proof {
            assert(self.bridges@.dom() =~= old(self).bridges@.dom());
            assert(self.bridges@.remove(platform) =~= old(self).bridges@.remove(platform));
        }
        Ok(())
    }

    /// Generate a new quantum key for a registered bridge (admin origin).
    pub fn generate_quantum_key(
        &mut self,
        origin: Origin,
        platform: BlockchainPlatform,
        protocol: QuantumProtocol,
        security_level: ThreeNestedSecurityLevel,
        key_pair: QuantumKeyPair,
    ) -> (result: Result<(), DispatchError<Error>>)
        requires
            old(self).wf(),
        ensures
            final(self).wf(),
            !(origin is Root) ==> result == Err::<(), DispatchError<Error>>(DispatchError::BadOrigin),
            origin is Root && !old(self).bridges().contains_key(platform)
                ==> result == Err::<(), DispatchError<Error>>(DispatchError::Module(Error::BridgeDoesNotExist)),
            origin is Root && old(self).bridges().contains_key(platform) && old(self).keys_of(platform).dom().len() >= old(self).max_keys()
                ==> result == Err::<(), DispatchError<Error>>(DispatchError::Module(Error::TooManyKeys)),
            result is Ok <==> (origin is Root && old(self).bridges().contains_key(platform)
                && old(self).keys_of(platform).dom().len() < old(self).max_keys()),
            result is Err ==> final(self).unchanged(old(self)),
            result is Ok ==> {
                &&& final(self).keys_of(platform) == old(self).keys_of(platform).insert(old(self).next_index(platform), key_pair)
                &&& final(self).next_index(platform) == (old(self).next_index(platform) + 1) % (old(self).max_keys() as int)
                &&& final(self).keys_changed_only_for(old(self), platform)
                &&& final(self).events() == old(self).events().push(Event::QuantumKeyGenerated {
                    platform,
                    key_index: old(self).next_index(platform),
                    protocol,
                })
            },
    {
        ensure_root(origin)?;
        if !self.bridges.contains_key(&platform) {
            return Err(DispatchError::Module(Error::BridgeDoesNotExist));
        }
        self.generate_quantum_key_internal(platform, protocol, security_level, key_pair)
    }

    /// Send a message to another blockchain (signed origin). The bridge must exist, be active,
    /// and take a payload of this size; the fee of `fee_for` is charged to the sender
    /// (`fee_paid` tells whether the currency moved it to the pallet account). The message is
    /// filed under its hash with the sender, the fee is added to the bridge's reserve, and the
    /// key index that served as nonce advances. Fails, changing nothing, when the channel has no
    /// key at its next index.
    #[verifier::rlimit(40)]
    pub fn send_message(
        &mut self,
        origin: Origin,
        platform: BlockchainPlatform,
        target_account: BridgeAccountId,
        message_type: BridgeMessageType,
        payload: Vec<u8>,
        fee_paid: bool,
        now_ms: u64,
    ) -> (result: Result<(), DispatchError<Error>>)
        requires
            old(self).wf(),
            crate::bridge_core::account_parts(target_account).1.len() <= u32::MAX,
        ensures
            final(self).wf(),
            !(origin is Signed) ==> result == Err::<(), DispatchError<Error>>(DispatchError::BadOrigin),
            origin is Signed && !old(self).bridges().contains_key(platform)
                ==> result == Err::<(), DispatchError<Error>>(DispatchError::Module(Error::BridgeDoesNotExist)),
            origin is Signed && old(self).bridges().contains_key(platform) && !old(self).bridges()[platform].active
                ==> result == Err::<(), DispatchError<Error>>(DispatchError::Module(Error::BridgeNotActive)),
            origin is Signed && old(self).bridges().contains_key(platform) && old(self).bridges()[platform].active
                && payload@.len() > old(self).bridges()[platform].max_message_size
                ==> result == Err::<(), DispatchError<Error>>(DispatchError::Module(Error::MessageTooLarge)),
            origin is Signed && old(self).bridges().contains_key(platform) && old(self).bridges()[platform].active
                && payload@.len() <= old(self).bridges()[platform].max_message_size
                && fee_for(old(self).bridges()[platform].fee_model, payload@.len() as u32) is None
                ==> result == Err::<(), DispatchError<Error>>(DispatchError::Module(Error::FeeCalculationError)),
            origin is Signed && old(self).bridges().contains_key(platform) && old(self).bridges()[platform].active
                && payload@.len() <= old(self).bridges()[platform].max_message_size
                && fee_for(old(self).bridges()[platform].fee_model, payload@.len() as u32) is Some && !fee_paid
                ==> result == Err::<(), DispatchError<Error>>(DispatchError::Currency),
            origin is Signed && old(self).bridges().contains_key(platform) && old(self).bridges()[platform].active
                && payload@.len() <= old(self).bridges()[platform].max_message_size
                && fee_for(old(self).bridges()[platform].fee_model, payload@.len() as u32) is Some && fee_paid
                && !old(self).keys_of(platform).contains_key(old(self).next_index(platform))
                ==> result == Err::<(), DispatchError<Error>>(DispatchError::Module(Error::NoQuantumKeysAvailable)),
            result is Ok <==> (origin is Signed && old(self).bridges().contains_key(platform)
                && old(self).bridges()[platform].active
                && payload@.len() <= old(self).bridges()[platform].max_message_size
                && fee_for(old(self).bridges()[platform].fee_model, payload@.len() as u32) is Some && fee_paid
                && old(self).keys_of(platform).contains_key(old(self).next_index(platform))),
            result is Err ==> final(self).unchanged(old(self)),
            result is Ok ==> (origin matches Origin::Signed(who) && {
                let fee = fee_for(old(self).bridges()[platform].fee_model, payload@.len() as u32).unwrap();
                &&& final(self).outbound_changed_only(old(self), platform)
                &&& final(self).bridges() == old(self).bridges()
                &&& final(self).keys_of(platform) == old(self).keys_of(platform)
                &&& final(self).next_index(platform) == (old(self).next_index(platform) + 1) % (old(self).max_keys() as int)
                &&& final(self).fee_reserve(platform) == if old(self).fee_reserve(platform) + fee > u128::MAX { u128::MAX as int } else { old(self).fee_reserve(platform) + fee }
                &&& final(self).events().len() == old(self).events().len() + 1
                &&& final(self).events().last() matches Event::MessageSent { platform: q, message_hash: h, message_type: t, sender: s }
                    && q == platform && t == message_type && s == who
                    && final(self).outbound_of(platform).contains_key(h@)
                    && final(self).outbound_of(platform) == old(self).outbound_of(platform).insert(h@, final(self).outbound_of(platform)[h@])
                    && final(self).outbound_of(platform)[h@].1 == who
                    && outgoing_message(final(self).outbound_of(platform)[h@].0, platform, message_type, who,
                        target_account, payload@, now_ms, old(self).next_index(platform))
                    && h@ == message_hash(final(self).outbound_of(platform)[h@].0)
            }),
    {
        let sender = ensure_signed(origin)?;
        let (fee, max_size) = match self.bridges.get(&platform) {
            Some(config) => {
                if !config.active {
                    return Err(DispatchError::Module(Error::BridgeNotActive));
                }
                if payload.len() > config.max_message_size as usize {
                    return Err(DispatchError::Module(Error::MessageTooLarge));
                }
                let fee = match calculate_fee(config, &message_type, payload.len() as u32) {
                    Ok(f) => f,
                    Err(e) => { return Err(DispatchError::Module(e)); },
                };
                (fee, config.max_message_size)
            },
            None => { return Err(DispatchError::Module(Error::BridgeDoesNotExist)); },
        };
        if !fee_paid {
            return Err(DispatchError::Currency);
        }
        let key_index = self.next_key_index(platform);
        if nested_get(&self.bridge_keys, &platform, &key_index).is_none() {
            return Err(DispatchError::Module(Error::NoQuantumKeysAvailable));
        }
        let ghost old_self = *self;
        let reserve = self.fees_reserved(platform);
        self.fee_reserves.insert(platform, reserve.saturating_add(fee));
        let quantum_hash = quantum_secure_hash(payload.as_slice());
        let message = BridgeMessage {
            source: BlockchainPlatform::Polkadot,
            target: platform,
            message_type,
            sender: BridgeAccountId::Substrate(account_bytes_of(&sender)),
            recipient: target_account,
            payload,
            quantum_hash,
            timestamp: Some(now_ms),
            nonce: key_index as u64,
        };
        let encoded = encode_bridge_message(&message);
        let hash = blake2_256(encoded.as_slice());
        nested_insert(&mut self.outbound, &platform, hash, (message, sender));
        self.next_key_index.insert(platform, (key_index + 1) % self.max_keys_per_channel);
        self.events.push(Event::MessageSent { platform, message_hash: hash, message_type, sender });
        proof {
            assert(self.outbound@.remove(platform) =~= old_self.outbound@.remove(platform));
            assert(self.next_key_index@.remove(platform) =~= old_self.next_key_index@.remove(platform));
            assert(self.fee_reserves@.remove(platform) =~= old_self.fee_reserves@.remove(platform));
            assert forall|q: BlockchainPlatform| #[trigger] self.next_key_index@.contains_key(q)
                implies self.next_key_index@[q] < self.max_keys_per_channel by {
                if q != platform {
                    assert(old_self.next_key_index@.contains_key(q));
                }
            }
        }
        Ok(())
    }

    /// Confirm that an outbound message has been processed (admin origin): it is no longer
    /// waiting.
    pub fn confirm_message(
        &mut self,
        origin: Origin,
        platform: BlockchainPlatform,
        message_hash: [u8; 32],
        transaction_hash: Vec<u8>,
    ) -> (result: Result<(), DispatchError<Error>>)
        requires
            old(self).wf(),
        ensures
            final(self).wf(),
            !(origin is Root) ==> result == Err::<(), DispatchError<Error>>(DispatchError::BadOrigin),
            origin is Root && !old(self).outbound_of(platform).contains_key(message_hash@)
                ==> result == Err::<(), DispatchError<Error>>(DispatchError::Module(Error::MessageDoesNotExist)),
            result is Ok <==> (origin is Root && old(self).outbound_of(platform).contains_key(message_hash@)),
            result is Err ==> final(self).unchanged(old(self)),
            result is Ok ==> {
                &&& final(self).outbound_changed_only(old(self), platform)
                &&& final(self).next_index(platform) == old(self).next_index(platform)
                &&& final(self).fee_reserve(platform) == old(self).fee_reserve(platform)
                &&& final(self).outbound_of(platform) == old(self).outbound_of(platform).remove(message_hash@)
                &&& forall|q: BlockchainPlatform| q != platform ==> final(self).outbound_of(q) == old(self).outbound_of(q)
                &&& final(self).bridges() == old(self).bridges()
                &&& final(self).events() == old(self).events().push(Event::MessageConfirmed {
                    platform,
                    message_hash,
                    transaction_hash,
                })
            },
    {
        ensure_root(origin)?;
        if nested_get(&self.outbound, &platform, &message_hash).is_none() {
            return Err(DispatchError::Module(Error::MessageDoesNotExist));
        }
        let ghost old_outbound = self.outbound@;
        nested_remove(&mut self.outbound, &platform, &message_hash);
        self.events.push(Event::MessageConfirmed { platform, message_hash, transaction_hash });
        proof {
            assert forall|q: BlockchainPlatform| q != platform implies self.outbound_of(q) == old(self).outbound_of(q) by {
                assert(self.outbound@.remove(platform).contains_key(q) == self.outbound@.contains_key(q));
                assert(old_outbound.remove(platform).contains_key(q) == old_outbound.contains_key(q));
                if self.outbound@.contains_key(q) {
                    assert(self.outbound@[q] == self.outbound@.remove(platform)[q]);
                }
            }
        }
        Ok(())
    }
}

impl BridgeHub {
    /// Only the supply chain store changed.
    pub closed spec fn supply_changed_only(&self, other: &BridgeHub) -> bool {
        &&& self.max_bridges == other.max_bridges
        &&& self.max_message_size == other.max_message_size
        &&& self.max_keys_per_channel == other.max_keys_per_channel
        &&& self.bridges@ == other.bridges@
        &&& self.bridge_keys@ == other.bridge_keys@
        &&& self.next_key_index@ == other.next_key_index@
        &&& self.outbound@ == other.outbound@
        &&& self.inbound@ == other.inbound@
        &&& self.proposals@ == other.proposals@
        &&& self.fee_reserves@ == other.fee_reserves@
    }

    /// Only the proposal store changed.
    pub closed spec fn proposals_changed_only(&self, other: &BridgeHub) -> bool {
        &&& self.max_bridges == other.max_bridges
        &&& self.max_message_size == other.max_message_size
        &&& self.max_keys_per_channel == other.max_keys_per_channel
        &&& self.bridges@ == other.bridges@
        &&& self.bridge_keys@ == other.bridge_keys@
        &&& self.next_key_index@ == other.next_key_index@
        &&& self.outbound@ == other.outbound@
        &&& self.inbound@ == other.inbound@
        &&& self.supply_chain@ == other.supply_chain@
        &&& self.fee_reserves@ == other.fee_reserves@
    }

    /// In a consistent store, every key of a bridge channel sits at an index below the channel
    /// limit, and so does the next key index, unless it is still the initial zero.
    pub proof fn lemma_key_indices_in_range(&self, p: BlockchainPlatform, i: u32)
        requires
            self.wf(),
        ensures
            self.keys_of(p).contains_key(i) ==> i < self.max_keys(),
            self.next_index(p) < self.max_keys() || self.next_index(p) == 0,
    {
        if self.keys_of(p).contains_key(i) {
            assert(inner_of(self.bridge_keys@, p).contains_key(i));
        }
        if self.next_key_index@.contains_key(p) {
            assert(self.next_key_index@[p] < self.max_keys_per_channel);
        }
    }

    /// In a consistent store, no product's supply chain history goes backwards.
    pub proof fn lemma_supply_history_monotone(&self, product: Seq<u8>)
        requires
            self.wf(),
        ensures
            stages_non_decreasing(self.supply_history(product)),
    {
        assert(stages_non_decreasing(history_in(self.supply_chain@, product)));
    }

    /// Append an entry to its product's history.
    fn append_history(&mut self, entry: SupplyChainEntry)
        requires
            old(self).wf(),
            may_follow(old(self).supply_history(entry.product_id@), entry.stage),
        ensures
            final(self).wf(),
            final(self).supply_changed_only(old(self)),
            final(self).supply_history(entry.product_id@) == old(self).supply_history(entry.product_id@).push(entry),
            forall|q: Seq<u8>| q != entry.product_id@ ==> final(self).supply_history(q) == old(self).supply_history(q),
            final(self).events() == old(self).events(),
    {
        let ghost product = entry.product_id@;
        let key = copy_all(entry.product_id.as_slice());
        let mut history = match self.supply_chain.remove(&key) {
            Some(h) => h,
            None => Vec::new(),
        };
        assert(history@ == old(self).supply_history(product));
        history.push(entry);
        self.supply_chain.insert(key, history);
        proof {
            let old_store = old(self).supply_chain@;
            assert forall|q: Seq<u8>| q != product implies history_in(self.supply_chain@, q) == history_in(old_store, q) by {
                assert(self.supply_chain@.remove(product).contains_key(q) == self.supply_chain@.contains_key(q));
                if self.supply_chain@.contains_key(q) {
                    assert(self.supply_chain@[q] == old_store.remove(product)[q]);
                }
            }
            assert forall|q: Seq<u8>| #[trigger] stages_non_decreasing(history_in(self.supply_chain@, q)) by {
                assert(stages_non_decreasing(history_in(old_store, q)));
                if q == product {
                    let h = history_in(old_store, q);
                    let n = history_in(self.supply_chain@, q);
                    assert forall|i: int, j: int| 0 <= i <= j < n.len() implies stage_code(n[i].stage) <= stage_code(n[j].stage) by {
                        if j == h.len() && i < h.len() {
                            assert(stage_code(h[i].stage) <= stage_code(h[h.len() - 1].stage));
                        }
                    }
                }
            }
        }
    }

    /// Register a community proposal from a received message: it is filed under its source id
    /// unless that id is taken.
    fn register_community_proposal(
        &mut self,
        platform: BlockchainPlatform,
        proposal: CommunityProposal,
    ) -> (result: Result<(), DispatchError<Error>>)
        requires
            old(self).wf(),
        ensures
            final(self).wf(),
            result is Ok <==> !old(self).proposals_of(platform).contains_key(proposal.source_id@),
            result is Err ==> result == Err::<(), DispatchError<Error>>(DispatchError::Module(Error::ProposalAlreadyExists))
                && final(self).unchanged(old(self)),
            result is Ok ==> {
                &&& final(self).proposals_changed_only(old(self))
                &&& final(self).proposals_of(platform) == old(self).proposals_of(platform).insert(proposal.source_id@, proposal)
                &&& forall|q: BlockchainPlatform| q != platform ==> final(self).proposals_of(q) == old(self).proposals_of(q)
                &&& final(self).events().len() == old(self).events().len() + 1
                &&& final(self).events().drop_last() == old(self).events()
                &&& final(self).events().last() matches Event::CommunityProposalRegistered { platform: q, proposal_id: id, title: t, funding_amount: f }
                    && q == platform && id@ == proposal.source_id@ && t@ == proposal.title@ && f == proposal.funding_amount
            },
    {
        if nested_get(&self.proposals, &platform, &proposal.source_id).is_some() {
            return Err(DispatchError::Module(Error::ProposalAlreadyExists));
        }
        let key = copy_all(proposal.source_id.as_slice());
        let proposal_id = copy_all(proposal.source_id.as_slice());
        let title = copy_all(proposal.title.as_slice());
        let funding_amount = proposal.funding_amount;
        let ghost old_store = self.proposals@;
        nested_insert(&mut self.proposals, &platform, key, proposal);
        self.events.push(Event::CommunityProposalRegistered { platform, proposal_id, title, funding_amount });
        proof {
            assert forall|q: BlockchainPlatform| q != platform implies self.proposals_of(q) == old(self).proposals_of(q) by {
                assert(self.proposals@.remove(platform).contains_key(q) == self.proposals@.contains_key(q));
                assert(old_store.remove(platform).contains_key(q) == old_store.contains_key(q));
                if self.proposals@.contains_key(q) {
                    assert(self.proposals@[q] == self.proposals@.remove(platform)[q]);
                }
            }
        }
        Ok(())
    }

    /// Register a new community proposal for sustainable food initiatives (signed origin): the
    /// bridge must exist and the source id be free; the proposal is recorded as coming from
    /// Polkadot and created by the signer's account.
    pub fn register_community_proposal_direct(
        &mut self,
        origin: Origin,
        platform: BlockchainPlatform,
        title: Vec<u8>,
        description: Vec<u8>,
        funding_amount: u128,
        target_communities: Vec<Vec<u8>>,
        sustainability_metrics: Vec<(Vec<u8>, Vec<u8>)>,
        source_id: Vec<u8>,
    ) -> (result: Result<(), DispatchError<Error>>)
        requires
            old(self).wf(),
        ensures
            final(self).wf(),
            !(origin is Signed) ==> result == Err::<(), DispatchError<Error>>(DispatchError::BadOrigin),
            origin is Signed && !old(self).bridges().contains_key(platform)
                ==> result == Err::<(), DispatchError<Error>>(DispatchError::Module(Error::BridgeDoesNotExist)),
            origin is Signed && old(self).bridges().contains_key(platform) && old(self).proposals_of(platform).contains_key(source_id@)
                ==> result == Err::<(), DispatchError<Error>>(DispatchError::Module(Error::ProposalAlreadyExists)),
            result is Ok <==> (origin is Signed && old(self).bridges().contains_key(platform)
                && !old(self).proposals_of(platform).contains_key(source_id@)),
            result is Err ==> final(self).unchanged(old(self)),
            result is Ok ==> (origin matches Origin::Signed(who) && {
                &&& final(self).proposals_changed_only(old(self))
                &&& final(self).proposals_of(platform).dom() == old(self).proposals_of(platform).dom().insert(source_id@)
                &&& final(self).proposals_of(platform).remove(source_id@) == old(self).proposals_of(platform).remove(source_id@)
                &&& direct_proposal(final(self).proposals_of(platform)[source_id@], title@, description, funding_amount, who,
                    target_communities, sustainability_metrics, source_id@)
                &&& final(self).events().len() == old(self).events().len() + 1
                &&& final(self).events().last() matches Event::CommunityProposalRegistered { platform: q, proposal_id: id, title: t, funding_amount: f }
                    && q == platform && id@ == source_id@ && t@ == title@ && f == funding_amount
            }),
    {
        let sender = ensure_signed(origin)?;
        if !self.bridges.contains_key(&platform) {
            return Err(DispatchError::Module(Error::BridgeDoesNotExist));
        }
        let proposal = CommunityProposal {
            title,
            description,
            funding_amount,
            creator: BridgeAccountId::Substrate(account_bytes_of(&sender)),
            target_communities,
            sustainability_metrics,
            source_chain: BlockchainPlatform::Polkadot,
            source_id,
        };
        let result = self.register_community_proposal(platform, proposal);
        proof {
            if result is Ok {
                assert(self.proposals_of(platform).dom() =~= old(self).proposals_of(platform).dom().insert(source_id@));
                assert(self.proposals_of(platform).remove(source_id@) =~= old(self).proposals_of(platform).remove(source_id@));
            }
        }
        result
    }

    /// Register a supply chain entry from a received message: its verification hash must match
    /// its fields and its stage may not come before the product's last one.
    pub fn register_supply_chain_entry(&mut self, entry: SupplyChainEntry) -> (result: Result<(), DispatchError<Error>>)
        requires
            old(self).wf(),
        ensures
            final(self).wf(),
            !entry_hash_valid(entry) ==> result == Err::<(), DispatchError<Error>>(DispatchError::Module(Error::VerificationHashMismatch)),
            entry_hash_valid(entry) && !may_follow(old(self).supply_history(entry.product_id@), entry.stage)
                ==> result == Err::<(), DispatchError<Error>>(DispatchError::Module(Error::SupplyChainStageRegression)),
            result is Ok <==> entry_hash_valid(entry) && may_follow(old(self).supply_history(entry.product_id@), entry.stage),
            result is Err ==> final(self).unchanged(old(self)),
            forall|q: Seq<u8>| #[trigger] old(self).supply_history(q).is_prefix_of(final(self).supply_history(q)),
            result is Ok ==> {
                &&& final(self).supply_changed_only(old(self))
                &&& final(self).supply_history(entry.product_id@) == old(self).supply_history(entry.product_id@).push(entry)
                &&& forall|q: Seq<u8>| q != entry.product_id@ ==> final(self).supply_history(q) == old(self).supply_history(q)
                &&& final(self).events().len() == old(self).events().len() + 1
                &&& final(self).events().drop_last() == old(self).events()
                &&& final(self).events().last() matches Event::SupplyChainEntryVerified { product_id: pid, stage: st, verification_hash: h }
                    && pid@ == entry.product_id@ && st == entry.stage && h == entry.verification_hash
            },
    {
        let calculated = supply_chain_verification_hash(
            entry.product_id.as_slice(),
            entry.producer_id.as_slice(),
            entry.location.as_slice(),
            entry.timestamp,
            &entry.certifications,
            entry.stage,
        );
        if !calculated.key_eq(&entry.verification_hash) {
            return Err(DispatchError::Module(Error::VerificationHashMismatch));
        }
        if !self.stage_may_follow(&entry.product_id, entry.stage) {
            return Err(DispatchError::Module(Error::SupplyChainStageRegression));
        }
        let product_id = copy_all(entry.product_id.as_slice());
        let stage = entry.stage;
        let verification_hash = entry.verification_hash;
        self.append_history(entry);
        self.events.push(Event::SupplyChainEntryVerified { product_id, stage, verification_hash });
        Ok(())
    }

    /// Whether an entry of this stage may follow the product's history.
    fn stage_may_follow(&self, product_id: &Vec<u8>, stage: SupplyChainStage) -> (ok: bool)
        ensures
            ok == may_follow(self.supply_history(product_id@), stage),
    {
        match self.supply_chain.get(product_id) {
            Some(history) => {
                if history.len() == 0 {
                    true
                } else {
                    stage_index(history[history.len() - 1].stage) <= stage_index(stage)
                }
            },
            None => true,
        }
    }

    /// Register a supply chain entry for food traceability (signed origin): the entry gets the
    /// verification hash of its fields and is appended to the product's history, unless its
    /// stage comes before the product's last one.
    pub fn register_supply_chain_entry_direct(
        &mut self,
        origin: Origin,
        product_id: Vec<u8>,
        producer_id: Vec<u8>,
        location: Vec<u8>,
        timestamp: u64,
        certifications: Vec<Vec<u8>>,
        stage: SupplyChainStage,
    ) -> (result: Result<(), DispatchError<Error>>)
        requires
            old(self).wf(),
        ensures
            final(self).wf(),
            !(origin is Signed) ==> result == Err::<(), DispatchError<Error>>(DispatchError::BadOrigin),
            origin is Signed && !may_follow(old(self).supply_history(product_id@), stage)
                ==> result == Err::<(), DispatchError<Error>>(DispatchError::Module(Error::SupplyChainStageRegression)),
            result is Ok <==> (origin is Signed && may_follow(old(self).supply_history(product_id@), stage)),
            result is Err ==> final(self).unchanged(old(self)),
            forall|q: Seq<u8>| #[trigger] old(self).supply_history(q).is_prefix_of(final(self).supply_history(q)),
            result is Ok ==> {
                let h = supply_chain_hash(product_id@, producer_id@, location@, timestamp, certifications@, stage);
                &&& final(self).supply_changed_only(old(self))
                &&& final(self).supply_history(product_id@).len() == old(self).supply_history(product_id@).len() + 1
                &&& final(self).supply_history(product_id@).drop_last() == old(self).supply_history(product_id@)
                &&& final(self).supply_history(product_id@).last().product_id == product_id
                &&& final(self).supply_history(product_id@).last().producer_id == producer_id
                &&& final(self).supply_history(product_id@).last().location == location
                &&& final(self).supply_history(product_id@).last().timestamp == timestamp
                &&& final(self).supply_history(product_id@).last().certifications == certifications
                &&& final(self).supply_history(product_id@).last().stage == stage
                &&& final(self).supply_history(product_id@).last().verification_hash@ == h
                &&& forall|q: Seq<u8>| q != product_id@ ==> final(self).supply_history(q) == old(self).supply_history(q)
                &&& final(self).events().len() == old(self).events().len() + 1
                &&& final(self).events().last() matches Event::SupplyChainEntryVerified { product_id: pid, stage: st, verification_hash: vh }
                    && pid@ == product_id@ && st == stage && vh@ == h
            },
    {
        ensure_signed(origin)?;
        let verification_hash = supply_chain_verification_hash(
            product_id.as_slice(),
            producer_id.as_slice(),
            location.as_slice(),
            timestamp,
            &certifications,
            stage,
        );
        if !self.stage_may_follow(&product_id, stage) {
            return Err(DispatchError::Module(Error::SupplyChainStageRegression));
        }
        let event_product = copy_all(product_id.as_slice());
        let entry = SupplyChainEntry {
            product_id,
            producer_id,
            location,
            timestamp,
            certifications,
            stage,
            verification_hash,
        };
        let ghost e = entry;
        self.append_history(entry);
        self.events.push(Event::SupplyChainEntryVerified { product_id: event_product, stage, verification_hash });
        proof {
            assert(self.supply_history(e.product_id@).drop_last() =~= old(self).supply_history(e.product_id@));
        }
        Ok(())
    }
}


impl BridgeHub {
    /// Whether the registration that a received message asks for would be accepted: a
    /// governance proposal whose source id is free, or a supply chain entry with a valid
    /// verification hash whose stage may follow its product's history. Any other combination
    /// asks for nothing.
    pub open spec fn registration_ok(
        &self,
        platform: BlockchainPlatform,
        message_type: BridgeMessageType,
        decoded: DecodedPayload,
    ) -> bool {
        match (message_type, decoded) {
            (BridgeMessageType::GovernanceProposal, DecodedPayload::Proposal(p)) =>
                !self.proposals_of(platform).contains_key(p.source_id@),
            (BridgeMessageType::SupplyChainUpdate, DecodedPayload::SupplyChain(e)) =>
                entry_hash_valid(e) && may_follow(self.supply_history(e.product_id@), e.stage),
            _ => true,
        }
    }

    /// The error of a registration that is not accepted.
    pub open spec fn registration_error(&self, decoded: DecodedPayload) -> Error {
        match decoded {
            DecodedPayload::SupplyChain(e) => if !entry_hash_valid(e) {
                Error::VerificationHashMismatch
            } else {
                Error::SupplyChainStageRegression
            },
            _ => Error::ProposalAlreadyExists,
        }
    }

    /// Only the inbound messages, the proposals and the supply chain store changed.
    pub closed spec fn intake_changed_only(&self, other: &BridgeHub) -> bool {
        &&& self.max_bridges == other.max_bridges
        &&& self.max_message_size == other.max_message_size
        &&& self.max_keys_per_channel == other.max_keys_per_channel
        &&& self.bridges@ == other.bridges@
        &&& self.bridge_keys@ == other.bridge_keys@
        &&& self.next_key_index@ == other.next_key_index@
        &&& self.outbound@ == other.outbound@
        &&& self.fee_reserves@ == other.fee_reserves@
    }

    /// What receiving a message does to proposals, supply chains and events beyond filing the
    /// message and its `MessageReceived` event.
    pub open spec fn received_effects(
        &self,
        before: &BridgeHub,
        platform: BlockchainPlatform,
        message_type: BridgeMessageType,
        decoded: DecodedPayload,
    ) -> bool {
        let base = before.events().len() + 1;
        match (message_type, decoded) {
            (BridgeMessageType::GovernanceProposal, DecodedPayload::Proposal(p)) => {
                &&& self.proposals_of(platform) == before.proposals_of(platform).insert(p.source_id@, p)
                &&& forall|q: BlockchainPlatform| q != platform ==> self.proposals_of(q) == before.proposals_of(q)
                &&& forall|product: Seq<u8>| self.supply_history(product) == before.supply_history(product)
                &&& self.events().len() == base + 1
                &&& self.events().last() matches Event::CommunityProposalRegistered {
                    platform: q,
                    proposal_id: id,
                    title: t,
                    funding_amount: f,
                } && q == platform && id@ == p.source_id@ && t@ == p.title@ && f == p.funding_amount
            },
            (BridgeMessageType::SupplyChainUpdate, DecodedPayload::SupplyChain(e)) => {
                &&& forall|q: BlockchainPlatform| self.proposals_of(q) == before.proposals_of(q)
                &&& self.supply_history(e.product_id@) == before.supply_history(e.product_id@).push(e)
                &&& forall|product: Seq<u8>| product != e.product_id@
                    ==> self.supply_history(product) == before.supply_history(product)
                &&& self.events().len() == base + 1
                &&& self.events().last() matches Event::SupplyChainEntryVerified {
                    product_id: pid,
                    stage: st,
                    verification_hash: h,
                } && pid@ == e.product_id@ && st == e.stage && h == e.verification_hash
            },
            _ => {
                &&& forall|q: BlockchainPlatform| self.proposals_of(q) == before.proposals_of(q)
                &&& forall|product: Seq<u8>| self.supply_history(product) == before.supply_history(product)
                &&& self.events().len() == base
            },
        }
    }

    /// Check the registration that a received message asks for, changing nothing.
    fn check_registration(
        &self,
        platform: BlockchainPlatform,
        message_type: BridgeMessageType,
        decoded: &DecodedPayload,
    ) -> (result: Result<(), Error>)
        ensures
            result is Ok <==> self.registration_ok(platform, message_type, *decoded),
            result is Err ==> result == Err::<(), Error>(self.registration_error(*decoded)),
    {
        match message_type {
            BridgeMessageType::GovernanceProposal => match decoded {
                DecodedPayload::Proposal(p) => {
                    if nested_get(&self.proposals, &platform, &p.source_id).is_some() {
                        return Err(Error::ProposalAlreadyExists);
                    }
                    Ok(())
                },
                _ => Ok(()),
            },
            BridgeMessageType::SupplyChainUpdate => match decoded {
                DecodedPayload::SupplyChain(e) => {
                    let calculated = supply_chain_verification_hash(
                        e.product_id.as_slice(),
                        e.producer_id.as_slice(),
                        e.location.as_slice(),
                        e.timestamp,
                        &e.certifications,
                        e.stage,
                    );
                    if !calculated.key_eq(&e.verification_hash) {
                        return Err(Error::VerificationHashMismatch);
                    }
                    if !self.stage_may_follow(&e.product_id, e.stage) {
                        return Err(Error::SupplyChainStageRegression);
                    }
                    Ok(())
                },
                _ => Ok(()),
            },
            _ => Ok(()),
        }
    }

    /// Receive a message from another chain (admin origin). The bridge must exist and be active
    /// and the message must carry the BLAKE3 hash of its payload; it is then filed among the
    /// bridge's inbound messages under `message_hash`. A governance proposal or a supply chain
    /// update whose payload decoded (`decoded`, as the runtime's codec read the payload) is
    /// registered as well; a refused registration refuses the whole call.
    pub fn receive_message(
        &mut self,
        origin: Origin,
        platform: BlockchainPlatform,
        message: BridgeMessage,
        message_proof: Vec<u8>,
        decoded: DecodedPayload,
    ) -> (result: Result<(), DispatchError<Error>>)
        requires
            old(self).wf(),
            message_encodable(message),
        ensures
            final(self).wf(),
            !(origin is Root) ==> result == Err::<(), DispatchError<Error>>(DispatchError::BadOrigin),
            origin is Root && !old(self).bridges().contains_key(platform)
                ==> result == Err::<(), DispatchError<Error>>(DispatchError::Module(Error::BridgeDoesNotExist)),
            origin is Root && old(self).bridges().contains_key(platform) && !old(self).bridges()[platform].active
                ==> result == Err::<(), DispatchError<Error>>(DispatchError::Module(Error::BridgeNotActive)),
            origin is Root && old(self).bridges().contains_key(platform) && old(self).bridges()[platform].active
                && blake3_digest(message.payload@) != message.quantum_hash@
                ==> result == Err::<(), DispatchError<Error>>(DispatchError::Module(Error::InvalidSignature)),
            origin is Root && old(self).bridges().contains_key(platform) && old(self).bridges()[platform].active
                && blake3_digest(message.payload@) == message.quantum_hash@
                && !old(self).registration_ok(platform, message.message_type, decoded)
                ==> result == Err::<(), DispatchError<Error>>(DispatchError::Module(old(self).registration_error(decoded))),
            result is Ok <==> (origin is Root && old(self).bridges().contains_key(platform)
                && old(self).bridges()[platform].active && blake3_digest(message.payload@) == message.quantum_hash@
                && old(self).registration_ok(platform, message.message_type, decoded)),
            result is Err ==> final(self).unchanged(old(self)),
            result is Ok ==> {
                &&& final(self).intake_changed_only(old(self))
                &&& final(self).bridges() == old(self).bridges()
                &&& final(self).inbound_of(platform) == old(self).inbound_of(platform).insert(message_hash(message), message)
                &&& forall|q: BlockchainPlatform| q != platform ==> final(self).inbound_of(q) == old(self).inbound_of(q)
                &&& final(self).events().subrange(0, old(self).events().len() as int) == old(self).events()
                &&& final(self).events()[old(self).events().len() as int] matches Event::MessageReceived {
                    platform: q,
                    message_hash: h,
                    message_type: t,
                } && q == platform && h@ == message_hash(message) && t == message.message_type
                &&& final(self).received_effects(old(self), platform, message.message_type, decoded)
            },
    {
        ensure_root(origin)?;
        let active = match self.bridges.get(&platform) {
            Some(config) => config.active,
            None => { return Err(DispatchError::Module(Error::BridgeDoesNotExist)); },
        };
        if !active {
            return Err(DispatchError::Module(Error::BridgeNotActive));
        }
        let payload_hash = quantum_secure_hash(message.payload.as_slice());
        if !payload_hash.key_eq(&message.quantum_hash) {
            return Err(DispatchError::Module(Error::InvalidSignature));
        }
        match self.check_registration(platform, message.message_type, &decoded) {
            Ok(()) => {},
            Err(e) => { return Err(DispatchError::Module(e)); },
        }
        let message_type = message.message_type;
        let ghost filed = message;
        let encoded = encode_bridge_message(&message);
        let hash = blake2_256(encoded.as_slice());
        let ghost old_inbound = self.inbound@;
        nested_insert(&mut self.inbound, &platform, hash, message);
        self.events.push(Event::MessageReceived { platform, message_hash: hash, message_type });
        proof {
            assert forall|q: BlockchainPlatform| q != platform implies self.inbound_of(q) == old(self).inbound_of(q) by {
                assert(self.inbound@.remove(platform).contains_key(q) == self.inbound@.contains_key(q));
                assert(old_inbound.remove(platform).contains_key(q) == old_inbound.contains_key(q));
                if self.inbound@.contains_key(q) {
                    assert(self.inbound@[q] == self.inbound@.remove(platform)[q]);
                }
            }
        }
        let ghost mid = *self;
        let ghost n = old(self).events().len() as int;
        assert(mid.events().subrange(0, n) =~= old(self).events());
        match message_type {
            BridgeMessageType::GovernanceProposal => match decoded {
                DecodedPayload::Proposal(p) => {
                    self.register_community_proposal(platform, p)?;
                    assert(self.events().subrange(0, n) =~= mid.events().subrange(0, n));
                    assert(self.events()[n] == mid.events()[n]);
                },
                _ => {},
            },
            BridgeMessageType::SupplyChainUpdate => match decoded {
                DecodedPayload::SupplyChain(e) => {
                    self.register_supply_chain_entry(e)?;
                    assert(self.events().subrange(0, n) =~= mid.events().subrange(0, n));
                    assert(self.events()[n] == mid.events()[n]);
                    assert forall|q: BlockchainPlatform| self.proposals_of(q) == old(self).proposals_of(q) by {}
                },
                _ => {},
            },
            _ => {},
        }
        Ok(())
    }
}


/// Whether keys rotate at the end of this block: every ten thousandth block.
pub open spec fn is_rotation_block(n: BlockNumber) -> bool {
    n != 0 && n % 10000 == 0
}

impl BridgeHub {
    /// The registered platforms in the order in which the store walks them.
    pub closed spec fn bridge_order(&self) -> Seq<BlockchainPlatform> {
        self.bridges.key_seq()
    }

    /// In a consistent store, the bridge order holds each registered platform once, ordered by
    /// storage key.
    pub proof fn lemma_bridge_order(&self)
        requires
            self.wf(),
        ensures
            self.bridge_order().no_duplicates(),
            self.bridge_order().to_set() == self.bridges().dom(),
            in_walk_order::<BlockchainPlatform>(self.bridge_order()),
    {
    }

    /// A bridge whose channel takes a fresh key at a rotation: it is active and its channel has
    /// room.
    pub open spec fn due_for_key(&self, q: BlockchainPlatform) -> bool {
        &&& self.bridges().contains_key(q)
        &&& self.bridges()[q].active
        &&& self.keys_of(q).dom().len() < self.max_keys()
    }

    /// `due_for_key` as a predicate.
    pub open spec fn due_pred(&self) -> spec_fn(BlockchainPlatform) -> bool {
        |q: BlockchainPlatform| self.due_for_key(q)
    }

    /// The channels that a rotation gives keys to, in the order in which the store walks the
    /// bridges, as far as `pairs` key pairs last.
    pub open spec fn rotation_targets(&self, pairs: nat) -> Seq<BlockchainPlatform> {
        let due = self.bridge_order().filter(self.due_pred());
        if pairs < due.len() { due.take(pairs as int) } else { due }
    }

    /// The event of a key generated at a rotation.
    pub open spec fn rotation_event(&self, q: BlockchainPlatform) -> Event {
        Event::QuantumKeyGenerated { platform: q, key_index: self.next_index(q), protocol: QuantumProtocol::ThriceNestedStereo }
    }

    /// Only the key stores changed.
    pub closed spec fn keys_changed_only(&self, other: &BridgeHub) -> bool {
        &&& self.max_bridges == other.max_bridges
        &&& self.max_message_size == other.max_message_size
        &&& self.max_keys_per_channel == other.max_keys_per_channel
        &&& self.bridges@ == other.bridges@
        &&& self.outbound@ == other.outbound@
        &&& self.inbound@ == other.inbound@
        &&& self.proposals@ == other.proposals@
        &&& self.supply_chain@ == other.supply_chain@
        &&& self.fee_reserves@ == other.fee_reserves@
    }

    /// End of block `n`: at every ten thousandth block each active bridge whose channel has room
    /// gets a fresh quantum key, in the order in which the store walks the bridges, taking the
    /// supplied key pairs in turn until they run out. At any other block nothing happens.
    pub fn on_finalize(&mut self, n: BlockNumber, key_pairs: Vec<QuantumKeyPair>)
        requires
            old(self).wf(),
        ensures
            final(self).wf(),
            !is_rotation_block(n) ==> final(self).unchanged(old(self)),
            is_rotation_block(n) ==> {
                let t = old(self).rotation_targets(key_pairs@.len());
                &&& final(self).keys_changed_only(old(self))
                &&& final(self).bridges() == old(self).bridges()
                &&& forall|k: int| 0 <= k < t.len() ==> {
                    &&& final(self).keys_of(#[trigger] t[k]) == old(self).keys_of(t[k]).insert(old(self).next_index(t[k]), key_pairs@[k])
                    &&& final(self).next_index(t[k]) == (old(self).next_index(t[k]) + 1) % (old(self).max_keys() as int)
                }
                &&& forall|q: BlockchainPlatform| !t.contains(q)
                    ==> final(self).keys_of(q) == old(self).keys_of(q) && final(self).next_index(q) == old(self).next_index(q)
                &&& final(self).events() == old(self).events() + t.map_values(|q: BlockchainPlatform| old(self).rotation_event(q))
            },
    {
        if n == 0 || n % 10000 != 0 {
            return;
        }
        let mut key_pairs = key_pairs;
        let platforms = self.bridges.keys();
        let ghost old_self = *self;
        let ghost order = old_self.bridge_order();
        let ghost pred = old_self.due_pred();
        let ghost orig = key_pairs@;
        let ghost f = |q: BlockchainPlatform| old_self.rotation_event(q);
        let ghost mut due_seen = Seq::<BlockchainPlatform>::empty();
        let ghost mut targets = Seq::<BlockchainPlatform>::empty();
        let mut used: usize = 0;
        let mut i: usize = 0;
        assert(order.take(0) =~= Seq::<BlockchainPlatform>::empty());
        assert(old_self.events() + targets.map_values(f) =~= old_self.events());
        while i < platforms.len()
            invariant
                old_self.wf(),
                order == old_self.bridge_order(),
                pred == old_self.due_pred(),
                f == (|q: BlockchainPlatform| old_self.rotation_event(q)),
                platforms@.len() == order.len(),
                forall|j: int| 0 <= j < order.len() ==> platforms@[j] == #[trigger] order[j],
                order.no_duplicates(),
                0 <= i <= platforms.len(),
                due_seen == order.take(i as int).filter(pred),
                used <= orig.len(),
                used <= due_seen.len(),
                used == due_seen.len() || used == orig.len(),
                targets == due_seen.take(used as int),
                key_pairs@ == orig.skip(used as int),
                self.wf(),
                self.keys_changed_only(&old_self),
                self.max_keys() == old_self.max_keys(),
                forall|k: int| 0 <= k < targets.len() ==> {
                    &&& self.keys_of(#[trigger] targets[k]) == old_self.keys_of(targets[k]).insert(old_self.next_index(targets[k]), orig[k])
                    &&& self.next_index(targets[k]) == (old_self.next_index(targets[k]) + 1) % (old_self.max_keys() as int)
                },
                forall|q: BlockchainPlatform| !targets.contains(q)
                    ==> self.keys_of(q) == old_self.keys_of(q) && self.next_index(q) == old_self.next_index(q),
                self.events() == old_self.events() + targets.map_values(f),
            decreases platforms.len() - i,
        {
            let q = platforms[i];
            proof {
                assert(q == order[i as int]);
                assert(order.take(i as int + 1) =~= order.take(i as int).push(q));
                order.take(i as int).lemma_filter_push(q, pred);
                if targets.contains(q) {
                    due_seen.take(used as int).lemma_filter_contains_rev(|x: BlockchainPlatform| true, q);
                    assert(due_seen.contains(q));
                    order.take(i as int).lemma_filter_contains_rev(pred, q);
                    let j = choose|j: int| 0 <= j < i && order.take(i as int)[j] == q;
                    assert(order[j] == order[i as int]);
                }
                assert(!targets.contains(q));
                assert(self.due_for_key(q) == old_self.due_for_key(q));
            }
            let active = match self.bridges.get(&q) {
                Some(config) => config.active,
                None => false,
            };
            if active && key_pairs.len() > 0 && nested_len(&self.bridge_keys, &q) < self.max_keys_per_channel as usize {
                let pair = key_pairs.remove(0);
                let ghost before = *self;
                let generated = self.generate_quantum_key_internal(
                    q,
                    QuantumProtocol::ThriceNestedStereo,
                    ThreeNestedSecurityLevel::High,
                    pair,
                );
                proof {
                    assert(generated is Ok);
                    self.lemma_other_keys(&before, q);
                    assert(pair == orig[used as int]);
                    let new_targets = targets.push(q);
                    assert(key_pairs@ =~= orig.skip(used as int + 1));
                    assert(due_seen.push(q).take(used as int + 1) =~= new_targets);
                    assert(new_targets.map_values(f) =~= targets.map_values(f).push(f(q)));
                    assert forall|x: BlockchainPlatform| !new_targets.contains(x) implies
                        self.keys_of(x) == old_self.keys_of(x) && self.next_index(x) == old_self.next_index(x) by {
                        assert(new_targets[new_targets.len() - 1] == q);
                        if targets.contains(x) {
                            let j = choose|j: int| 0 <= j < targets.len() && targets[j] == x;
                            assert(new_targets[j] == x);
                        }
                    }
                    assert forall|k: int| 0 <= k < new_targets.len() implies {
                        &&& self.keys_of(#[trigger] new_targets[k]) == old_self.keys_of(new_targets[k]).insert(old_self.next_index(new_targets[k]), orig[k])
                        &&& self.next_index(new_targets[k]) == (old_self.next_index(new_targets[k]) + 1) % (old_self.max_keys() as int)
                    } by {
                        if k < targets.len() {
                            assert(new_targets[k] == targets[k]);
                            assert(targets.contains(targets[k]));
                        }
                    }
                    targets = new_targets;
                }
                used = used + 1;
            } else {
                proof {
                    if pred(q) {
                        assert(used == orig.len());
                        assert(due_seen.push(q).take(used as int) =~= targets);
                    }
                }
            }
            proof {
                due_seen = order.take(i as int + 1).filter(pred);
            }
            i = i + 1;
        }
        proof {
            assert(order.take(i as int) =~= order);
            let due = order.filter(pred);
            if used == due.len() {
                assert(due.take(used as int) =~= due);
            }
            assert(targets == old_self.rotation_targets(orig.len()));
            assert(targets.map_values(f) =~= targets.map_values(|x: BlockchainPlatform| old_self.rotation_event(x)));
        }
    }
}

/// A handler that other modules implement to react to a message received from another chain.
pub trait OnMessageReceived<Platform, Account> {
    fn on_message_received(
        source: Platform,
        message_type: BridgeMessageType,
        sender: BridgeAccountId,
        recipient: Account,
        payload: Vec<u8>,
    ) -> Result<(), DispatchError<Error>>;
}

/// No handler: every message is accepted.
impl<Platform, Account> OnMessageReceived<Platform, Account> for () {
    fn on_message_received(
        source: Platform,
        message_type: BridgeMessageType,
        sender: BridgeAccountId,
        recipient: Account,
        payload: Vec<u8>,
    ) -> (result: Result<(), DispatchError<Error>>)
        ensures
            result is Ok,
    {
        Ok(())
    }
}

/// Confirming a message that `send_message` filed under a fresh hash restores the bridge's
/// outbound messages to what they were before the send.
pub proof fn lemma_confirm_undoes_send(
    before: BridgeHub,
    sent: BridgeHub,
    confirmed: BridgeHub,
    platform: BlockchainPlatform,
    hash: Seq<u8>,
)
    requires
        !before.outbound_of(platform).contains_key(hash),
        sent.outbound_of(platform) == before.outbound_of(platform).insert(hash, sent.outbound_of(platform)[hash]),
        confirmed.outbound_of(platform) == sent.outbound_of(platform).remove(hash),
    ensures
        confirmed.outbound_of(platform) == before.outbound_of(platform),
{
    assert(confirmed.outbound_of(platform) =~= before.outbound_of(platform));
}

impl BridgeHub {
    /// An entry built by `community::register_supply_chain_entry` (it carries the verification
    /// hash of its own fields) passes the hub's hash check, so `register_supply_chain_entry`
    /// appends it to its product's history, and a received supply chain update carrying it is
    /// accepted, whenever its stage may follow that history.
    pub proof fn lemma_built_entry_accepted(&self, platform: BlockchainPlatform, e: SupplyChainEntry)
        requires
            e.verification_hash@ == supply_chain_hash(e.product_id@, e.producer_id@, e.location@, e.timestamp,
                e.certifications@, e.stage),
            may_follow(self.supply_history(e.product_id@), e.stage),
        ensures
            entry_hash_valid(e),
            self.registration_ok(platform, BridgeMessageType::SupplyChainUpdate, DecodedPayload::SupplyChain(e)),
    {
    }

    /// Everything but the events is the same: every limit and stored value agrees.
    pub proof fn lemma_same_storage(&self, other: &BridgeHub)
        requires
            self.same_storage(other),
        ensures
            self.max_bridges() == other.max_bridges(),
            self.max_message() == other.max_message(),
            self.max_keys() == other.max_keys(),
            self.bridges() == other.bridges(),
            forall|q: BlockchainPlatform| #![trigger self.keys_of(q)] #![trigger other.keys_of(q)] self.keys_of(q) == other.keys_of(q),
            forall|q: BlockchainPlatform| #![trigger self.next_index(q)] #![trigger other.next_index(q)] self.next_index(q) == other.next_index(q),
            forall|q: BlockchainPlatform| #![trigger self.outbound_of(q)] #![trigger other.outbound_of(q)] self.outbound_of(q) == other.outbound_of(q),
            forall|q: BlockchainPlatform| #![trigger self.inbound_of(q)] #![trigger other.inbound_of(q)] self.inbound_of(q) == other.inbound_of(q),
            forall|q: BlockchainPlatform| #![trigger self.proposals_of(q)] #![trigger other.proposals_of(q)] self.proposals_of(q) == other.proposals_of(q),
            forall|q: BlockchainPlatform| #![trigger self.fee_reserve(q)] #![trigger other.fee_reserve(q)] self.fee_reserve(q) == other.fee_reserve(q),
            forall|x: Seq<u8>| #![trigger self.supply_history(x)] #![trigger other.supply_history(x)] self.supply_history(x) == other.supply_history(x),
    {
    }

    /// Only the keys and the next key index of `p` changed: every other stored value agrees.
    pub proof fn lemma_keys_changed_only_for(&self, other: &BridgeHub, p: BlockchainPlatform)
        requires
            self.keys_changed_only_for(other, p),
        ensures
            self.max_bridges() == other.max_bridges(),
            self.max_message() == other.max_message(),
            self.max_keys() == other.max_keys(),
            self.bridges() == other.bridges(),
            forall|q: BlockchainPlatform| #![trigger self.keys_of(q)] #![trigger other.keys_of(q)] q != p ==> self.keys_of(q) == other.keys_of(q),
            forall|q: BlockchainPlatform| #![trigger self.next_index(q)] #![trigger other.next_index(q)] q != p ==> self.next_index(q) == other.next_index(q),
            forall|q: BlockchainPlatform| #![trigger self.outbound_of(q)] #![trigger other.outbound_of(q)] self.outbound_of(q) == other.outbound_of(q),
            forall|q: BlockchainPlatform| #![trigger self.inbound_of(q)] #![trigger other.inbound_of(q)] self.inbound_of(q) == other.inbound_of(q),
            forall|q: BlockchainPlatform| #![trigger self.proposals_of(q)] #![trigger other.proposals_of(q)] self.proposals_of(q) == other.proposals_of(q),
            forall|q: BlockchainPlatform| #![trigger self.fee_reserve(q)] #![trigger other.fee_reserve(q)] self.fee_reserve(q) == other.fee_reserve(q),
            forall|x: Seq<u8>| #![trigger self.supply_history(x)] #![trigger other.supply_history(x)] self.supply_history(x) == other.supply_history(x),
    {
        assert forall|q: BlockchainPlatform| q != p implies self.keys_of(q) == other.keys_of(q) by {
            lemma_inner_removed(self.bridge_keys@, other.bridge_keys@, p, q);
        }
        assert forall|q: BlockchainPlatform| q != p implies self.next_index(q) == other.next_index(q) by {
            lemma_value_removed(self.next_key_index@, other.next_key_index@, p, q);
        }
    }

    /// Only the bridges and the keys and next key index of `p` changed: every other stored value agrees.
    pub proof fn lemma_registration_changed_only(&self, other: &BridgeHub, p: BlockchainPlatform)
        requires
            self.registration_changed_only(other, p),
        ensures
            self.max_bridges() == other.max_bridges(),
            self.max_message() == other.max_message(),
            self.max_keys() == other.max_keys(),
            forall|q: BlockchainPlatform| #![trigger self.keys_of(q)] #![trigger other.keys_of(q)] q != p ==> self.keys_of(q) == other.keys_of(q),
            forall|q: BlockchainPlatform| #![trigger self.next_index(q)] #![trigger other.next_index(q)] q != p ==> self.next_index(q) == other.next_index(q),
            forall|q: BlockchainPlatform| #![trigger self.outbound_of(q)] #![trigger other.outbound_of(q)] self.outbound_of(q) == other.outbound_of(q),
            forall|q: BlockchainPlatform| #![trigger self.inbound_of(q)] #![trigger other.inbound_of(q)] self.inbound_of(q) == other.inbound_of(q),
            forall|q: BlockchainPlatform| #![trigger self.proposals_of(q)] #![trigger other.proposals_of(q)] self.proposals_of(q) == other.proposals_of(q),
            forall|q: BlockchainPlatform| #![trigger self.fee_reserve(q)] #![trigger other.fee_reserve(q)] self.fee_reserve(q) == other.fee_reserve(q),
            forall|x: Seq<u8>| #![trigger self.supply_history(x)] #![trigger other.supply_history(x)] self.supply_history(x) == other.supply_history(x),
    {
        assert forall|q: BlockchainPlatform| q != p implies self.keys_of(q) == other.keys_of(q) by {
            lemma_inner_removed(self.bridge_keys@, other.bridge_keys@, p, q);
        }
        assert forall|q: BlockchainPlatform| q != p implies self.next_index(q) == other.next_index(q) by {
            lemma_value_removed(self.next_key_index@, other.next_key_index@, p, q);
        }
    }

    /// Only the outbound messages, the next key index and the fee reserve of `p` changed: every other stored value agrees.
    pub proof fn lemma_outbound_changed_only(&self, other: &BridgeHub, p: BlockchainPlatform)
        requires
            self.outbound_changed_only(other, p),
        ensures
            self.max_bridges() == other.max_bridges(),
            self.max_message() == other.max_message(),
            self.max_keys() == other.max_keys(),
            self.bridges() == other.bridges(),
            forall|q: BlockchainPlatform| #![trigger self.keys_of(q)] #![trigger other.keys_of(q)] self.keys_of(q) == other.keys_of(q),
            forall|q: BlockchainPlatform| #![trigger self.next_index(q)] #![trigger other.next_index(q)] q != p ==> self.next_index(q) == other.next_index(q),
            forall|q: BlockchainPlatform| #![trigger self.outbound_of(q)] #![trigger other.outbound_of(q)] q != p ==> self.outbound_of(q) == other.outbound_of(q),
            forall|q: BlockchainPlatform| #![trigger self.inbound_of(q)] #![trigger other.inbound_of(q)] self.inbound_of(q) == other.inbound_of(q),
            forall|q: BlockchainPlatform| #![trigger self.proposals_of(q)] #![trigger other.proposals_of(q)] self.proposals_of(q) == other.proposals_of(q),
            forall|q: BlockchainPlatform| #![trigger self.fee_reserve(q)] #![trigger other.fee_reserve(q)] q != p ==> self.fee_reserve(q) == other.fee_reserve(q),
            forall|x: Seq<u8>| #![trigger self.supply_history(x)] #![trigger other.supply_history(x)] self.supply_history(x) == other.supply_history(x),
    {
        assert forall|q: BlockchainPlatform| q != p implies self.next_index(q) == other.next_index(q) by {
            lemma_value_removed(self.next_key_index@, other.next_key_index@, p, q);
        }
        assert forall|q: BlockchainPlatform| q != p implies self.outbound_of(q) == other.outbound_of(q) by {
            lemma_inner_removed(self.outbound@, other.outbound@, p, q);
        }
        assert forall|q: BlockchainPlatform| q != p implies self.fee_reserve(q) == other.fee_reserve(q) by {
            lemma_value_removed(self.fee_reserves@, other.fee_reserves@, p, q);
        }
    }

    /// Only the bridges changed: every other stored value agrees.
    pub proof fn lemma_bridges_changed_only(&self, other: &BridgeHub)
        requires
            self.bridges_changed_only(other),
        ensures
            self.max_bridges() == other.max_bridges(),
            self.max_message() == other.max_message(),
            self.max_keys() == other.max_keys(),
            forall|q: BlockchainPlatform| #![trigger self.keys_of(q)] #![trigger other.keys_of(q)] self.keys_of(q) == other.keys_of(q),
            forall|q: BlockchainPlatform| #![trigger self.next_index(q)] #![trigger other.next_index(q)] self.next_index(q) == other.next_index(q),
            forall|q: BlockchainPlatform| #![trigger self.outbound_of(q)] #![trigger other.outbound_of(q)] self.outbound_of(q) == other.outbound_of(q),
            forall|q: BlockchainPlatform| #![trigger self.inbound_of(q)] #![trigger other.inbound_of(q)] self.inbound_of(q) == other.inbound_of(q),
            forall|q: BlockchainPlatform| #![trigger self.proposals_of(q)] #![trigger other.proposals_of(q)] self.proposals_of(q) == other.proposals_of(q),
            forall|q: BlockchainPlatform| #![trigger self.fee_reserve(q)] #![trigger other.fee_reserve(q)] self.fee_reserve(q) == other.fee_reserve(q),
            forall|x: Seq<u8>| #![trigger self.supply_history(x)] #![trigger other.supply_history(x)] self.supply_history(x) == other.supply_history(x),
    {
    }

    /// Only the supply chain histories changed: every other stored value agrees.
    pub proof fn lemma_supply_changed_only(&self, other: &BridgeHub)
        requires
            self.supply_changed_only(other),
        ensures
            self.max_bridges() == other.max_bridges(),
            self.max_message() == other.max_message(),
            self.max_keys() == other.max_keys(),
            self.bridges() == other.bridges(),
            forall|q: BlockchainPlatform| #![trigger self.keys_of(q)] #![trigger other.keys_of(q)] self.keys_of(q) == other.keys_of(q),
            forall|q: BlockchainPlatform| #![trigger self.next_index(q)] #![trigger other.next_index(q)] self.next_index(q) == other.next_index(q),
            forall|q: BlockchainPlatform| #![trigger self.outbound_of(q)] #![trigger other.outbound_of(q)] self.outbound_of(q) == other.outbound_of(q),
            forall|q: BlockchainPlatform| #![trigger self.inbound_of(q)] #![trigger other.inbound_of(q)] self.inbound_of(q) == other.inbound_of(q),
            forall|q: BlockchainPlatform| #![trigger self.proposals_of(q)] #![trigger other.proposals_of(q)] self.proposals_of(q) == other.proposals_of(q),
            forall|q: BlockchainPlatform| #![trigger self.fee_reserve(q)] #![trigger other.fee_reserve(q)] self.fee_reserve(q) == other.fee_reserve(q),
    {
    }

    /// Only the proposals changed: every other stored value agrees.
    pub proof fn lemma_proposals_changed_only(&self, other: &BridgeHub)
        requires
            self.proposals_changed_only(other),
        ensures
            self.max_bridges() == other.max_bridges(),
            self.max_message() == other.max_message(),
            self.max_keys() == other.max_keys(),
            self.bridges() == other.bridges(),
            forall|q: BlockchainPlatform| #![trigger self.keys_of(q)] #![trigger other.keys_of(q)] self.keys_of(q) == other.keys_of(q),
            forall|q: BlockchainPlatform| #![trigger self.next_index(q)] #![trigger other.next_index(q)] self.next_index(q) == other.next_index(q),
            forall|q: BlockchainPlatform| #![trigger self.outbound_of(q)] #![trigger other.outbound_of(q)] self.outbound_of(q) == other.outbound_of(q),
            forall|q: BlockchainPlatform| #![trigger self.inbound_of(q)] #![trigger other.inbound_of(q)] self.inbound_of(q) == other.inbound_of(q),
            forall|q: BlockchainPlatform| #![trigger self.fee_reserve(q)] #![trigger other.fee_reserve(q)] self.fee_reserve(q) == other.fee_reserve(q),
            forall|x: Seq<u8>| #![trigger self.supply_history(x)] #![trigger other.supply_history(x)] self.supply_history(x) == other.supply_history(x),
    {
    }

    /// Only the inbound messages, the proposals and the supply chain histories changed: every other stored value agrees.
    pub proof fn lemma_intake_changed_only(&self, other: &BridgeHub)
        requires
            self.intake_changed_only(other),
        ensures
            self.max_bridges() == other.max_bridges(),
            self.max_message() == other.max_message(),
            self.max_keys() == other.max_keys(),
            self.bridges() == other.bridges(),
            forall|q: BlockchainPlatform| #![trigger self.keys_of(q)] #![trigger other.keys_of(q)] self.keys_of(q) == other.keys_of(q),
            forall|q: BlockchainPlatform| #![trigger self.next_index(q)] #![trigger other.next_index(q)] self.next_index(q) == other.next_index(q),
            forall|q: BlockchainPlatform| #![trigger self.outbound_of(q)] #![trigger other.outbound_of(q)] self.outbound_of(q) == other.outbound_of(q),
            forall|q: BlockchainPlatform| #![trigger self.fee_reserve(q)] #![trigger other.fee_reserve(q)] self.fee_reserve(q) == other.fee_reserve(q),
    {
    }

    /// Only the keys and the next key indices changed: every other stored value agrees.
    pub proof fn lemma_keys_changed_only(&self, other: &BridgeHub)
        requires
            self.keys_changed_only(other),
        ensures
            self.max_bridges() == other.max_bridges(),
            self.max_message() == other.max_message(),
            self.max_keys() == other.max_keys(),
            self.bridges() == other.bridges(),
            forall|q: BlockchainPlatform| #![trigger self.outbound_of(q)] #![trigger other.outbound_of(q)] self.outbound_of(q) == other.outbound_of(q),
            forall|q: BlockchainPlatform| #![trigger self.inbound_of(q)] #![trigger other.inbound_of(q)] self.inbound_of(q) == other.inbound_of(q),
            forall|q: BlockchainPlatform| #![trigger self.proposals_of(q)] #![trigger other.proposals_of(q)] self.proposals_of(q) == other.proposals_of(q),
            forall|q: BlockchainPlatform| #![trigger self.fee_reserve(q)] #![trigger other.fee_reserve(q)] self.fee_reserve(q) == other.fee_reserve(q),
            forall|x: Seq<u8>| #![trigger self.supply_history(x)] #![trigger other.supply_history(x)] self.supply_history(x) == other.supply_history(x),
    {
    }

}


} // verus!
