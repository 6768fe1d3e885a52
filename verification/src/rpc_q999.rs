//! Quantum-secure tokens with Actorx circuit profiles, zones and wallets.
use vstd::prelude::*;
use crate::eigenlayer::join_layers;
use crate::hashing::{blake3_digest, digest2, digest3};
use crate::keyed_map::KeyedMap;
use crate::runtime::{AccountId, Balance, BlockNumber, DispatchError, Origin, ensure_signed};
use crate::scale::{copy_all, le4, scale_encode_u32};
use crate::weights::Weight;

verus! {

/// The identifier of a token.
pub type TokenId = u128;

/// The identifier of a zone.
pub type ZoneId = u32;

/// The identifier of a profile.
pub type ProfileId = u32;

/// The identifier of a circuit.
pub type CircuitId = u32;

/// An Actorx quantum circuit.
#[derive(Clone, Debug, PartialEq, Eq)]
pub struct ActorxCircuit {
    /// Circuit identifier.
    pub id: CircuitId,
    /// Circuit name.
    pub name: Vec<u8>,
    /// Circuit creator.
    pub creator: Vec<u8>,
    /// Circuit description.
    pub description: Vec<u8>,
    /// Circuit type identifiers.
    pub circuit_type: Vec<u8>,
    /// Quantum gate sequence (serialized).
    pub gate_sequence: Vec<u8>,
    /// Qubit count.
    pub qubit_count: u8,
    /// Thrice-nested entropy.
    pub entropy: [u8; 96],
}

/// An Actorx profile.
#[derive(Clone, Debug, PartialEq, Eq)]
pub struct ActorxProfile<AccountId, Balance> {
    /// Profile identifier.
    pub id: ProfileId,
    /// Profile owner.
    pub owner: AccountId,
    /// Profile name.
    pub name: Vec<u8>,
    /// Associated circuits.
    pub circuits: Vec<CircuitId>,
    /// Associated zones.
    pub zones: Vec<ZoneId>,
    /// Profile metadata (IPFS CID).
    pub metadata: Vec<u8>,
    /// Social credentials.
    pub social_identities: Vec<Vec<u8>>,
    /// Staked balance.
    pub staked: Balance,
    /// Thrice-nested entropy.
    pub entropy: [u8; 96],
}

/// An Actorx zone.
#[derive(Clone, Debug, PartialEq, Eq)]
pub struct ActorxZone<AccountId, Balance> {
    /// Zone identifier.
    pub id: ZoneId,
    /// Zone controller.
    pub controller: AccountId,
    /// Zone name.
    pub name: Vec<u8>,
    /// Zone description.
    pub description: Vec<u8>,
    /// Permitted circuits.
    pub permitted_circuits: Vec<CircuitId>,
    /// Member profiles.
    pub members: Vec<ProfileId>,
    /// Total staked balance.
    pub total_staked: Balance,
    /// Thrice-nested entropy.
    pub entropy: [u8; 96],
}

/// An RPC-Q999 token.
#[derive(Clone, Debug, PartialEq, Eq)]
pub struct RPCQ999Token<AccountId, Balance> {
    /// Token identifier.
    pub id: TokenId,
    /// Token owner.
    pub owner: AccountId,
    /// Token name.
    pub name: Vec<u8>,
    /// Token symbol.
    pub symbol: Vec<u8>,
    /// Token metadata (IPFS CID).
    pub metadata: Vec<u8>,
    /// Associated circuit.
    pub circuit: Option<CircuitId>,
    /// Token balance.
    pub balance: Balance,
    /// Zones required for a transfer.
    pub required_zones: Vec<ZoneId>,
    /// Minimum profile level.
    pub min_profile_level: u8,
    /// Thrice-nested entropy.
    pub entropy: [u8; 96],
}

/// Events of the token pallet.
#[derive(Clone, Debug, PartialEq, Eq)]
pub enum Event {
    /// Token created: creator, token id, name.
    TokenCreated(AccountId, TokenId, Vec<u8>),
    /// Token transferred: from, to, token id.
    TokenTransferred(AccountId, AccountId, TokenId),
    /// Profile created: owner, profile id, name.
    ProfileCreated(AccountId, ProfileId, Vec<u8>),
    /// Zone created: controller, zone id, name.
    ZoneCreated(AccountId, ZoneId, Vec<u8>),
    /// Circuit created: circuit id, name.
    CircuitCreated(CircuitId, Vec<u8>),
    /// Profile joined zone: profile id, zone id.
    ProfileJoinedZone(ProfileId, ZoneId),
    /// Circuit added to profile: profile id, circuit id.
    CircuitAddedToProfile(ProfileId, CircuitId),
}

/// Errors of the token pallet.
#[derive(Clone, Copy, Debug, PartialEq, Eq, Structural)]
pub enum Error {
    /// Token does not exist.
    TokenNotFound,
    /// Profile does not exist.
    ProfileNotFound,
    /// Zone does not exist.
    ZoneNotFound,
    /// Circuit does not exist.
    CircuitNotFound,
    /// Unauthorized operation.
    Unauthorized,
    /// Name too long.
    NameTooLong,
    /// Description too long.
    DescriptionTooLong,
    /// Metadata too large.
    MetadataTooLarge,
    /// Max circuits reached.
    MaxCircuitsReached,
    /// Max zones reached.
    MaxZonesReached,
    /// Invalid transfer.
    InvalidTransfer,
    /// Profile not in required zone.
    ProfileNotInZone,
    /// Insufficient profile level.
    InsufficientProfileLevel,
    /// Math overflow.
    MathOverflow,
}

/// Weights of the token calls.
pub trait WeightInfo {
    fn create_token() -> Weight;
    fn create_profile() -> Weight;
    fn create_zone() -> Weight;
    fn create_circuit() -> Weight;
    fn transfer_token() -> Weight;
    fn join_zone() -> Weight;
    fn add_circuit_to_profile() -> Weight;
}

/// Thrice-nested entropy of a token: the outer layer hashes the creator's account and the
/// name, the middle one the outer layer and the symbol, the inner one both layers and the
/// account again.
pub open spec fn token_entropy(account: AccountId, name: Seq<u8>, symbol: Seq<u8>) -> Seq<u8> {
    let fe = blake3_digest(account@ + name);
    let ni = blake3_digest(fe + symbol);
    let co = blake3_digest(fe + ni + account@);
    fe + ni + co
}

/// Thrice-nested entropy of a profile created at block `block`.
pub open spec fn profile_entropy(account: AccountId, name: Seq<u8>, block: BlockNumber) -> Seq<u8> {
    let fe = blake3_digest(account@ + name);
    let ni = blake3_digest(fe + le4(block as nat));
    let co = blake3_digest(fe + ni + account@);
    fe + ni + co
}

/// Generate the thrice-nested entropy of a token.
pub fn generate_token_entropy(account: &AccountId, name: &[u8], symbol: &[u8]) -> (entropy: [u8; 96])
    ensures
        entropy@ == token_entropy(*account, name@, symbol@),
{
    let fe = digest2(account.as_slice(), name);
    let ni = digest2(fe.as_slice(), symbol);
    let co = digest3(fe.as_slice(), ni.as_slice(), account.as_slice());
    join_layers(&fe, &ni, &co)
}

/// Generate the thrice-nested entropy of a profile created at block `block`.
pub fn generate_profile_entropy(account: &AccountId, name: &[u8], block: BlockNumber) -> (entropy: [u8; 96])
    ensures
        entropy@ == profile_entropy(*account, name@, block),
{
    let timestamp = scale_encode_u32(block);
    let fe = digest2(account.as_slice(), name);
    let ni = digest2(fe.as_slice(), timestamp.as_slice());
    let co = digest3(fe.as_slice(), ni.as_slice(), account.as_slice());
    join_layers(&fe, &ni, &co)
}

/// The token that `create_token` stores.
pub open spec fn new_token(
    t: RPCQ999Token<AccountId, Balance>,
    id: TokenId,
    creator: AccountId,
    name: Seq<u8>,
    symbol: Seq<u8>,
    metadata: Seq<u8>,
    circuit: Option<CircuitId>,
    balance: Balance,
    required_zones: Seq<ZoneId>,
    min_profile_level: u8,
) -> bool {
    &&& t.id == id
    &&& t.owner == creator
    &&& t.name@ == name
    &&& t.symbol@ == symbol
    &&& t.metadata@ == metadata
    &&& t.circuit == circuit
    &&& t.balance == balance
    &&& t.required_zones@ == required_zones
    &&& t.min_profile_level == min_profile_level
    &&& t.entropy@ == token_entropy(creator, name, symbol)
}

/// The profile that `create_profile` stores.
pub open spec fn new_profile(
    p: ActorxProfile<AccountId, Balance>,
    id: ProfileId,
    owner: AccountId,
    name: Seq<u8>,
    metadata: Seq<u8>,
    social_identities: Vec<Vec<u8>>,
    staked: Balance,
    block: BlockNumber,
) -> bool {
    &&& p.id == id
    &&& p.owner == owner
    &&& p.name@ == name
    &&& p.circuits@ == Seq::<CircuitId>::empty()
    &&& p.zones@ == Seq::<ZoneId>::empty()
    &&& p.metadata@ == metadata
    &&& p.social_identities == social_identities
    &&& p.staked == staked
    &&& p.entropy@ == profile_entropy(owner, name, block)
}

/// The storage of the token pallet.
pub struct RpcQ999 {
    string_limit: u32,
    metadata_limit: u32,
    max_circuits_per_profile: u32,
    max_zones_per_profile: u32,
    next_token_id: TokenId,
    next_profile_id: ProfileId,
    next_zone_id: ZoneId,
    next_circuit_id: CircuitId,
    tokens: KeyedMap<TokenId, RPCQ999Token<AccountId, Balance>>,
    profiles: KeyedMap<ProfileId, ActorxProfile<AccountId, Balance>>,
    zones: KeyedMap<ZoneId, ActorxZone<AccountId, Balance>>,
    circuits: KeyedMap<CircuitId, ActorxCircuit>,
    account_profiles: KeyedMap<AccountId, Vec<ProfileId>>,
    events: Vec<Event>,
}

/// Whether the circuit, if one is named, exists.
pub open spec fn circuit_known(circuits: Map<CircuitId, ActorxCircuit>, circuit: Option<CircuitId>) -> bool {
    match circuit {
        Some(c) => circuits.contains_key(c),
        None => true,
    }
}

/// Whether every zone of a list exists.
pub open spec fn zones_exist<V>(zones: Map<ZoneId, V>, required: Seq<ZoneId>) -> bool {
    forall|i: int| 0 <= i < required.len() ==> zones.contains_key(#[trigger] required[i])
}

impl RpcQ999 {
    /// The longest name or symbol.
    pub closed spec fn string_limit_value(&self) -> u32 {
        self.string_limit
    }

    /// The largest metadata.
    pub closed spec fn metadata_limit_value(&self) -> u32 {
        self.metadata_limit
    }

    /// The id the next token gets.
    pub closed spec fn next_token(&self) -> TokenId {
        self.next_token_id
    }

    /// The id the next profile gets.
    pub closed spec fn next_profile(&self) -> ProfileId {
        self.next_profile_id
    }

    /// The tokens, by id.
    pub closed spec fn token_map(&self) -> Map<TokenId, RPCQ999Token<AccountId, Balance>> {
        self.tokens@
    }

    /// The profiles, by id.
    pub closed spec fn profile_map(&self) -> Map<ProfileId, ActorxProfile<AccountId, Balance>> {
        self.profiles@
    }

    /// The zones, by id.
    pub closed spec fn zone_map(&self) -> Map<ZoneId, ActorxZone<AccountId, Balance>> {
        self.zones@
    }

    /// The circuits, by id.
    pub closed spec fn circuit_map(&self) -> Map<CircuitId, ActorxCircuit> {
        self.circuits@
    }

    /// The profiles of an account, oldest first.
    pub closed spec fn profiles_of(&self, account: Seq<u8>) -> Seq<ProfileId> {
        if self.account_profiles@.contains_key(account) { self.account_profiles@[account]@ } else { Seq::empty() }
    }

    /// The events emitted so far.
    pub closed spec fn events(&self) -> Seq<Event> {
        self.events@
    }

    /// Nothing at all has changed.
    pub closed spec fn unchanged(&self, other: &RpcQ999) -> bool {
        &&& self.string_limit == other.string_limit
        &&& self.metadata_limit == other.metadata_limit
        &&& self.max_circuits_per_profile == other.max_circuits_per_profile
        &&& self.max_zones_per_profile == other.max_zones_per_profile
        &&& self.next_token_id == other.next_token_id
        &&& self.next_profile_id == other.next_profile_id
        &&& self.next_zone_id == other.next_zone_id
        &&& self.next_circuit_id == other.next_circuit_id
        &&& self.tokens@ == other.tokens@
        &&& self.profiles@ == other.profiles@
        &&& self.zones@ == other.zones@
        &&& self.circuits@ == other.circuits@
        &&& self.account_profiles@ == other.account_profiles@
        &&& self.events@ == other.events@
    }

    /// Empty storage with the given limits.
    pub fn new(string_limit: u32, metadata_limit: u32, max_circuits_per_profile: u32, max_zones_per_profile: u32) -> (pallet: RpcQ999)
        ensures
            pallet.string_limit_value() == string_limit,
            pallet.metadata_limit_value() == metadata_limit,
            pallet.next_token() == 0,
            pallet.next_profile() == 0,
            pallet.token_map() == Map::<TokenId, RPCQ999Token<AccountId, Balance>>::empty(),
            pallet.profile_map() == Map::<ProfileId, ActorxProfile<AccountId, Balance>>::empty(),
            pallet.zone_map() == Map::<ZoneId, ActorxZone<AccountId, Balance>>::empty(),
            pallet.circuit_map() == Map::<CircuitId, ActorxCircuit>::empty(),
            forall|a: Seq<u8>| pallet.profiles_of(a) == Seq::<ProfileId>::empty(),
            pallet.events() == Seq::<Event>::empty(),
    {
        let pallet = RpcQ999 {
            string_limit,
            metadata_limit,
            max_circuits_per_profile,
            max_zones_per_profile,
            next_token_id: 0,
            next_profile_id: 0,
            next_zone_id: 0,
            next_circuit_id: 0,
            tokens: KeyedMap::new(),
            profiles: KeyedMap::new(),
            zones: KeyedMap::new(),
            circuits: KeyedMap::new(),
            account_profiles: KeyedMap::new(),
            events: Vec::new(),
        };
        assert(pallet.events@ =~= Seq::<Event>::empty());
        pallet
    }

    /// The id the next token gets.
    pub fn next_token_id(&self) -> (id: TokenId)
        ensures
            id == self.next_token(),
    {
        self.next_token_id
    }

    /// The id the next profile gets.
    pub fn next_profile_id(&self) -> (id: ProfileId)
        ensures
            id == self.next_profile(),
    {
        self.next_profile_id
    }

    /// A token.
    pub fn tokens(&self, id: TokenId) -> (token: Option<&RPCQ999Token<AccountId, Balance>>)
        ensures
            match token {
                Some(t) => self.token_map().contains_key(id) && *t == self.token_map()[id],
                None => !self.token_map().contains_key(id),
            },
    {
        self.tokens.get(&id)
    }

    /// A profile.
    pub fn profiles(&self, id: ProfileId) -> (profile: Option<&ActorxProfile<AccountId, Balance>>)
        ensures
            match profile {
                Some(p) => self.profile_map().contains_key(id) && *p == self.profile_map()[id],
                None => !self.profile_map().contains_key(id),
            },
    {
        self.profiles.get(&id)
    }

    /// The profiles of an account, oldest first.
    pub fn account_profiles(&self, account: &AccountId) -> (ids: &[ProfileId])
        ensures
            ids@ == self.profiles_of(account@),
    {
        match self.account_profiles.get(account) {
            Some(ids) => ids.as_slice(),
            None => {
                let empty: &[ProfileId] = &[];
                assert(empty@ =~= Seq::<ProfileId>::empty());
                empty
            },
        }
    }

    /// The events emitted so far.
    pub fn event_log(&self) -> (events: &[Event])
        ensures
            events@ == self.events(),
    {
        self.events.as_slice()
    }

    /// Whether every zone of a list exists.
    fn all_zones_exist(&self, required: &Vec<ZoneId>) -> (all: bool)
        ensures
            all == zones_exist(self.zone_map(), required@),
    {
        let mut i: usize = 0;
        while i < required.len()
            invariant
                0 <= i <= required@.len(),
                forall|j: int| 0 <= j < i ==> self.zones@.contains_key(#[trigger] required@[j]),
            decreases required@.len() - i,
        {
            if !self.zones.contains_key(&required[i]) {
                return false;
            }
            i = i + 1;
        }
        true
    }

    /// Create a token (signed origin). Name and symbol may not exceed the string limit nor the
    /// metadata its limit; the circuit, if any, and every required zone must exist. The token
    /// gets the next id, the creator as owner and the entropy of `token_entropy`. Fails,
    /// changing nothing, when the token ids are used up.
    pub fn create_token(
        &mut self,
        origin: Origin,
        name: Vec<u8>,
        symbol: Vec<u8>,
        metadata: Vec<u8>,
        circuit_id: Option<CircuitId>,
        required_zones: Vec<ZoneId>,
        min_profile_level: u8,
        initial_balance: Balance,
    ) -> (result: Result<(), DispatchError<Error>>)
        ensures
            !(origin is Signed) ==> result == Err::<(), DispatchError<Error>>(DispatchError::BadOrigin),
            origin is Signed && (name@.len() > old(self).string_limit_value() || symbol@.len() > old(self).string_limit_value())
                ==> result == Err::<(), DispatchError<Error>>(DispatchError::Module(Error::NameTooLong)),
            origin is Signed && name@.len() <= old(self).string_limit_value() && symbol@.len() <= old(self).string_limit_value()
                && metadata@.len() > old(self).metadata_limit_value()
                ==> result == Err::<(), DispatchError<Error>>(DispatchError::Module(Error::MetadataTooLarge)),
            origin is Signed && name@.len() <= old(self).string_limit_value() && symbol@.len() <= old(self).string_limit_value()
                && metadata@.len() <= old(self).metadata_limit_value()
                && !circuit_known(old(self).circuit_map(), circuit_id)
                ==> result == Err::<(), DispatchError<Error>>(DispatchError::Module(Error::CircuitNotFound)),
            origin is Signed && name@.len() <= old(self).string_limit_value() && symbol@.len() <= old(self).string_limit_value()
                && metadata@.len() <= old(self).metadata_limit_value()
                && circuit_known(old(self).circuit_map(), circuit_id)
                && !zones_exist(old(self).zone_map(), required_zones@)
                ==> result == Err::<(), DispatchError<Error>>(DispatchError::Module(Error::ZoneNotFound)),
            origin is Signed && name@.len() <= old(self).string_limit_value() && symbol@.len() <= old(self).string_limit_value()
                && metadata@.len() <= old(self).metadata_limit_value()
                && circuit_known(old(self).circuit_map(), circuit_id)
                && zones_exist(old(self).zone_map(), required_zones@) && old(self).next_token() == u128::MAX
                ==> result == Err::<(), DispatchError<Error>>(DispatchError::Module(Error::MathOverflow)),
            result is Ok <==> (origin is Signed && name@.len() <= old(self).string_limit_value()
                && symbol@.len() <= old(self).string_limit_value() && metadata@.len() <= old(self).metadata_limit_value()
                && circuit_known(old(self).circuit_map(), circuit_id)
                && zones_exist(old(self).zone_map(), required_zones@) && old(self).next_token() < u128::MAX),
            result is Err ==> final(self).unchanged(old(self)),
            result is Ok ==> (origin matches Origin::Signed(who) && {
                let id = old(self).next_token();
                &&& final(self).token_map().dom() == old(self).token_map().dom().insert(id)
                &&& final(self).token_map().remove(id) == old(self).token_map().remove(id)
                &&& new_token(final(self).token_map()[id], id, who, name@, symbol@, metadata@, circuit_id, initial_balance,
                    required_zones@, min_profile_level)
                &&& final(self).next_token() == id + 1
                &&& final(self).next_profile() == old(self).next_profile()
                &&& final(self).profile_map() == old(self).profile_map()
                &&& final(self).zone_map() == old(self).zone_map()
                &&& final(self).circuit_map() == old(self).circuit_map()
                &&& forall|a: Seq<u8>| final(self).profiles_of(a) == old(self).profiles_of(a)
                &&& final(self).events().drop_last() == old(self).events()
                &&& final(self).events().len() == old(self).events().len() + 1
                &&& final(self).events().last() matches Event::TokenCreated(c, i, n) && c == who && i == id && n@ == name@
            }),
    {
        let creator = ensure_signed(origin)?;
        if name.len() > self.string_limit as usize || symbol.len() > self.string_limit as usize {
            return Err(DispatchError::Module(Error::NameTooLong));
        }
        if metadata.len() > self.metadata_limit as usize {
            return Err(DispatchError::Module(Error::MetadataTooLarge));
        }
        match circuit_id {
            Some(cid) => {
                if !self.circuits.contains_key(&cid) {
                    return Err(DispatchError::Module(Error::CircuitNotFound));
                }
            },
            None => {},
        }
        if !self.all_zones_exist(&required_zones) {
            return Err(DispatchError::Module(Error::ZoneNotFound));
        }
        let entropy = generate_token_entropy(&creator, name.as_slice(), symbol.as_slice());
        let token_id = self.next_token_id;
        if token_id == u128::MAX {
            return Err(DispatchError::Module(Error::MathOverflow));
        }
        let event_name = copy_all(name.as_slice());
        let token = RPCQ999Token {
            id: token_id,
            owner: creator,
            name,
            symbol,
            metadata,
            circuit: circuit_id,
            balance: initial_balance,
            required_zones,
            min_profile_level,
            entropy,
        };
        self.tokens.insert(token_id, token);
        self.next_token_id = token_id + 1;
        self.events.push(Event::TokenCreated(creator, token_id, event_name));
        proof {
            assert(self.tokens@.dom() =~= old(self).tokens@.dom().insert(token_id));
            assert(self.tokens@.remove(token_id) =~= old(self).tokens@.remove(token_id));
            assert(self.events@.drop_last() =~= old(self).events@);
        }
        Ok(())
    }

    /// Create an Actorx profile (signed origin) at block `block`. The name may not exceed the
    /// string limit nor the metadata its limit. A positive stake is reserved from the owner;
    /// `stake_reserved` is whether the currency did so. The profile gets the next id, no
    /// circuits or zones and the entropy of `profile_entropy`, and is appended to the owner's
    /// profiles. Fails, changing nothing, when the profile ids are used up.
    pub fn create_profile(
        &mut self,
        origin: Origin,
        name: Vec<u8>,
        metadata: Vec<u8>,
        social_identities: Vec<Vec<u8>>,
        staked_amount: Balance,
        block: BlockNumber,
        stake_reserved: bool,
    ) -> (result: Result<(), DispatchError<Error>>)
        ensures
            !(origin is Signed) ==> result == Err::<(), DispatchError<Error>>(DispatchError::BadOrigin),
            origin is Signed && name@.len() > old(self).string_limit_value()
                ==> result == Err::<(), DispatchError<Error>>(DispatchError::Module(Error::NameTooLong)),
            origin is Signed && name@.len() <= old(self).string_limit_value() && metadata@.len() > old(self).metadata_limit_value()
                ==> result == Err::<(), DispatchError<Error>>(DispatchError::Module(Error::MetadataTooLarge)),
            origin is Signed && name@.len() <= old(self).string_limit_value() && metadata@.len() <= old(self).metadata_limit_value()
                && staked_amount > 0 && !stake_reserved
                ==> result == Err::<(), DispatchError<Error>>(DispatchError::Currency),
            origin is Signed && name@.len() <= old(self).string_limit_value() && metadata@.len() <= old(self).metadata_limit_value()
                && (staked_amount == 0 || stake_reserved) && old(self).next_profile() == u32::MAX
                ==> result == Err::<(), DispatchError<Error>>(DispatchError::Module(Error::MathOverflow)),
            result is Ok <==> (origin is Signed && name@.len() <= old(self).string_limit_value()
                && metadata@.len() <= old(self).metadata_limit_value() && (staked_amount == 0 || stake_reserved)
                && old(self).next_profile() < u32::MAX),
            result is Err ==> final(self).unchanged(old(self)),
            result is Ok ==> (origin matches Origin::Signed(who) && {
                let id = old(self).next_profile();
                &&& final(self).profile_map().dom() == old(self).profile_map().dom().insert(id)
                &&& final(self).profile_map().remove(id) == old(self).profile_map().remove(id)
                &&& new_profile(final(self).profile_map()[id], id, who, name@, metadata@, social_identities, staked_amount, block)
                &&& final(self).next_profile() == id + 1
                &&& final(self).profiles_of(who@) == old(self).profiles_of(who@).push(id)
                &&& forall|a: Seq<u8>| a != who@ ==> final(self).profiles_of(a) == old(self).profiles_of(a)
                &&& final(self).next_token() == old(self).next_token()
                &&& final(self).token_map() == old(self).token_map()
                &&& final(self).zone_map() == old(self).zone_map()
                &&& final(self).circuit_map() == old(self).circuit_map()
                &&& final(self).events().drop_last() == old(self).events()
                &&& final(self).events().len() == old(self).events().len() + 1
                &&& final(self).events().last() matches Event::ProfileCreated(o, i, n) && o == who && i == id && n@ == name@
            }),
    {
        let owner = ensure_signed(origin)?;
        if name.len() > self.string_limit as usize {
            return Err(DispatchError::Module(Error::NameTooLong));
        }
        if metadata.len() > self.metadata_limit as usize {
            return Err(DispatchError::Module(Error::MetadataTooLarge));
        }
        let entropy = generate_profile_entropy(&owner, name.as_slice(), block);
        let profile_id = self.next_profile_id;
        if staked_amount != 0 && !stake_reserved {
            return Err(DispatchError::Currency);
        }
        if profile_id == u32::MAX {
            return Err(DispatchError::Module(Error::MathOverflow));
        }
        let event_name = copy_all(name.as_slice());
        let profile = ActorxProfile {
            id: profile_id,
            owner,
            name,
            circuits: Vec::new(),
            zones: Vec::new(),
            metadata,
            social_identities,
            staked: staked_amount,
            entropy,
        };
        self.profiles.insert(profile_id, profile);
        self.next_profile_id = profile_id + 1;
        let mut ids = match self.account_profiles.remove(&owner) {
            Some(ids) => ids,
            None => Vec::new(),
        };
        ids.push(profile_id);
        self.account_profiles.insert(owner, ids);
        self.events.push(Event::ProfileCreated(owner, profile_id, event_name));
        proof {
            assert(self.profiles@.dom() =~= old(self).profiles@.dom().insert(profile_id));
            assert(self.profiles@.remove(profile_id) =~= old(self).profiles@.remove(profile_id));
            assert(self.events@.drop_last() =~= old(self).events@);
            assert(self.profiles_of(owner@) =~= old(self).profiles_of(owner@).push(profile_id));
            assert forall|a: Seq<u8>| a != owner@ implies self.profiles_of(a) == old(self).profiles_of(a) by {
                assert(self.account_profiles@.remove(owner@).contains_key(a) == old(self).account_profiles@.contains_key(a));
            }
        }
        Ok(())
    }
}

impl RpcQ999 {
    /// Nothing changed: every limit, counter, stored value and event agrees.
    pub proof fn lemma_unchanged(&self, other: &RpcQ999)
        requires
            self.unchanged(other),
        ensures
            self.string_limit_value() == other.string_limit_value(),
            self.metadata_limit_value() == other.metadata_limit_value(),
            self.next_token() == other.next_token(),
            self.next_profile() == other.next_profile(),
            self.token_map() == other.token_map(),
            self.profile_map() == other.profile_map(),
            self.zone_map() == other.zone_map(),
            self.circuit_map() == other.circuit_map(),
            forall|a: Seq<u8>| #![trigger self.profiles_of(a)] #![trigger other.profiles_of(a)]
                self.profiles_of(a) == other.profiles_of(a),
            self.events() == other.events(),
    {
    }
}

} // verus!
