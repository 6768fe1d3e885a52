//! Quantum-secure restaking: actively validated services (AVSs) and the operators that restake
//! for them, each carrying thrice-nested entropy derived with BLAKE3.
use vstd::prelude::*;
use crate::hashing::{blake3_digest, digest2, digest3};
use crate::keyed_map::{KeyedMap, inner_of};
use crate::runtime::{AccountId, Balance, BlockNumber, DispatchError, Origin, ensure_signed};
use crate::scale::{le4, scale_bytes, scale_encode_bytes, scale_encode_u32};
use crate::weights::Weight;

verus! {

/// The identifier of an AVS.
pub type AvsId = u32;

/// Operator status in the Eigenspace.
#[derive(Clone, Copy, Debug, PartialEq, Eq, Structural)]
pub enum OperatorStatus {
    /// Active operator.
    Active,
    /// Operator that has signaled intent to exit.
    Exiting,
    /// Operator in cooldown period after withdrawal.
    Cooling,
    /// Ejected operator due to slashing or misbehavior.
    Ejected,
}

/// An AVS (actively validated service).
#[derive(Clone, Debug, PartialEq, Eq)]
pub struct ActivelyValidatedService<AccountId, Balance> {
    /// Name of the AVS.
    pub name: Vec<u8>,
    /// Creator of the AVS.
    pub creator: AccountId,
    /// Total staked amount.
    pub total_staked: Balance,
    /// Minimum stake required to become an operator.
    pub min_stake: Balance,
    /// Maximum stake allowed per operator.
    pub max_stake: Balance,
    /// Total operators in the AVS.
    pub operator_count: u32,
    /// Whether the AVS quorum is certified with quantum security.
    pub quorum_certified: bool,
    /// AVS configuration (metahash of extended parameters).
    pub config_hash: [u8; 32],
    /// Thrice-nested quantum entropy of this AVS.
    pub quantum_entropy: [u8; 96],
}

/// An operator restaking for AVSs.
#[derive(Clone, Debug, PartialEq, Eq)]
pub struct Operator<AccountId, Balance> {
    /// Operator account.
    pub account: AccountId,
    /// Total restaked amount.
    pub restaked_amount: Balance,
    /// The AVSs this operator takes part in.
    pub services: Vec<u32>,
    /// Current status.
    pub status: OperatorStatus,
    /// Block at which the exit process began, if exiting.
    pub exit_start: Option<u32>,
    /// Total rewards earned.
    pub cumulative_rewards: Balance,
    /// Quantum security entropy for operator signing.
    pub quantum_entropy: [u8; 96],
}

/// Events of the restaking pallet.
#[derive(Clone, Debug, PartialEq, Eq)]
pub enum Event {
    /// A new AVS was registered: creator, AVS id, name.
    AvsRegistered(AccountId, AvsId, Vec<u8>),
    /// A new operator was registered: operator, stake.
    OperatorRegistered(AccountId, Balance),
    /// An operator joined an AVS: operator, AVS id, stake.
    OperatorJoinedAvs(AccountId, AvsId, Balance),
    /// An operator began the exit process: operator, AVS id.
    OperatorExitStarted(AccountId, AvsId),
    /// An operator completed the exit process: operator, AVS id, unstaked amount.
    OperatorExitCompleted(AccountId, AvsId, Balance),
    /// An operator was slashed: operator, AVS id, slashed amount.
    OperatorSlashed(AccountId, AvsId, Balance),
    /// Rewards were distributed to an operator: operator, AVS id, reward.
    RewardsDistributed(AccountId, AvsId, Balance),
}

/// Errors of the restaking pallet.
#[derive(Clone, Copy, Debug, PartialEq, Eq, Structural)]
pub enum Error {
    /// AVS does not exist.
    AvsNotFound,
    /// Operator does not exist.
    OperatorNotFound,
    /// Insufficient stake.
    InsufficientStake,
    /// Operator already registered.
    OperatorAlreadyRegistered,
    /// Operator already in AVS.
    OperatorAlreadyInAvs,
    /// Operator not in AVS.
    OperatorNotInAvs,
    /// Max AVS services reached for operator.
    MaxServicesReached,
    /// Cooldown period not finished.
    CooldownNotFinished,
    /// Exit not initiated.
    ExitNotInitiated,
    /// Math overflow.
    MathOverflow,
    /// Invalid AVS parameters.
    InvalidAvsParams,
    /// Unauthorized operation.
    Unauthorized,
}

/// Weights of the restaking calls.
pub trait WeightInfo {
    fn register_avs() -> Weight;
    fn register_operator() -> Weight;
    fn join_avs() -> Weight;
    fn exit_avs() -> Weight;
    fn complete_exit() -> Weight;
    fn distribute_rewards() -> Weight;
}

/// Thrice-nested entropy of an AVS: the outer layer hashes the creator's account and the
/// encoded name, the middle one the outer layer and the configuration hash, the inner one both
/// layers and the creator's account again; the three digests are concatenated.
pub open spec fn avs_entropy(creator: AccountId, name: Seq<u8>, config_hash: Seq<u8>) -> Seq<u8> {
    let fe = blake3_digest(creator@ + scale_bytes(name));
    let ni = blake3_digest(fe + config_hash);
    let co = blake3_digest(fe + ni + creator@);
    fe + ni + co
}

/// Thrice-nested entropy of an operator, from its account and the encoded block number.
pub open spec fn operator_entropy(operator: AccountId, block: BlockNumber) -> Seq<u8> {
    let t = le4(block as nat);
    let fe = blake3_digest(operator@ + t);
    let ni = blake3_digest(fe + operator@);
    let co = blake3_digest(fe + ni + t);
    fe + ni + co
}

/// Three digests side by side.
pub(crate) fn join_layers(fe: &[u8; 32], ni: &[u8; 32], co: &[u8; 32]) -> (joined: [u8; 96])
    ensures
        joined@ == fe@ + ni@ + co@,
{
    let mut joined = [0u8; 96];
    let mut i: usize = 0;
    while i < 32
        invariant
            0 <= i <= 32,
            joined@.len() == 96,
            fe@.len() == 32,
            ni@.len() == 32,
            co@.len() == 32,
            forall|j: int| 0 <= j < i ==> joined@[j] == fe@[j] && joined@[j + 32] == ni@[j] && joined@[j + 64] == co@[j],
        decreases 32 - i,
    {
        joined[i] = fe[i];
        joined[i + 32] = ni[i];
        joined[i + 64] = co[i];
        i = i + 1;
    }
    assert(joined@ =~= fe@ + ni@ + co@);
    joined
}

/// Generate the thrice-nested entropy of an AVS.
pub fn generate_avs_entropy(creator: &AccountId, name: &Vec<u8>, config_hash: &[u8; 32]) -> (entropy: [u8; 96])
    requires
        name@.len() <= u32::MAX,
    ensures
        entropy@ == avs_entropy(*creator, name@, config_hash@),
{
    let creator_bytes: &[u8] = creator.as_slice();
    let name_bytes = scale_encode_bytes(name.as_slice());
    let fe = digest2(creator_bytes, name_bytes.as_slice());
    let ni = digest2(fe.as_slice(), config_hash.as_slice());
    let co = digest3(fe.as_slice(), ni.as_slice(), creator_bytes);
    join_layers(&fe, &ni, &co)
}

/// Generate the thrice-nested entropy of an operator registering at block `block`.
pub fn generate_operator_entropy(operator: &AccountId, block: BlockNumber) -> (entropy: [u8; 96])
    ensures
        entropy@ == operator_entropy(*operator, block),
{
    let operator_bytes: &[u8] = operator.as_slice();
    let timestamp = scale_encode_u32(block);
    let fe = digest2(operator_bytes, timestamp.as_slice());
    let ni = digest2(fe.as_slice(), operator_bytes);
    let co = digest3(fe.as_slice(), ni.as_slice(), timestamp.as_slice());
    join_layers(&fe, &ni, &co)
}

/// The AVS that `register_avs` stores.
pub open spec fn new_avs(
    a: ActivelyValidatedService<AccountId, Balance>,
    name: Seq<u8>,
    creator: AccountId,
    min_stake: Balance,
    max_stake: Balance,
    config_hash: [u8; 32],
) -> bool {
    &&& a.name@ == name
    &&& a.creator == creator
    &&& a.total_staked == 0
    &&& a.min_stake == min_stake
    &&& a.max_stake == max_stake
    &&& a.operator_count == 0
    &&& !a.quorum_certified
    &&& a.config_hash == config_hash
    &&& a.quantum_entropy@ == avs_entropy(creator, name, config_hash@)
}

/// The operator record that `register_operator` stores.
pub open spec fn new_operator(o: Operator<AccountId, Balance>, account: AccountId, stake: Balance, block: BlockNumber) -> bool {
    &&& o.account == account
    &&& o.restaked_amount == stake
    &&& o.services@ == Seq::<u32>::empty()
    &&& o.status == OperatorStatus::Active
    &&& o.exit_start is None
    &&& o.cumulative_rewards == 0
    &&& o.quantum_entropy@ == operator_entropy(account, block)
}

/// The storage of the restaking pallet.
pub struct Eigenlayer {
    min_operator_stake: Balance,
    unstake_cooldown: BlockNumber,
    max_services_per_operator: u32,
    next_avs_id: AvsId,
    avs_configs: KeyedMap<AvsId, ActivelyValidatedService<AccountId, Balance>>,
    operators: KeyedMap<AccountId, Operator<AccountId, Balance>>,
    avs_operators: KeyedMap<AvsId, KeyedMap<AccountId, Balance>>,
    stake_locks: KeyedMap<AccountId, Balance>,
    events: Vec<Event>,
}

impl Eigenlayer {
    /// The smallest stake an operator may register with.
    pub closed spec fn min_stake(&self) -> Balance {
        self.min_operator_stake
    }

    /// The id the next AVS gets.
    pub closed spec fn next_id(&self) -> AvsId {
        self.next_avs_id
    }

    /// The registered AVSs, by id.
    pub closed spec fn services(&self) -> Map<AvsId, ActivelyValidatedService<AccountId, Balance>> {
        self.avs_configs@
    }

    /// The registered operators, by account.
    pub closed spec fn operator_map(&self) -> Map<Seq<u8>, Operator<AccountId, Balance>> {
        self.operators@
    }

    /// The stake of each operator in an AVS.
    pub closed spec fn stakes_in(&self, avs: AvsId) -> Map<Seq<u8>, Balance> {
        inner_of(self.avs_operators@, avs)
    }

    /// The amount locked under the restaking lock, by account.
    pub closed spec fn locks(&self) -> Map<Seq<u8>, Balance> {
        self.stake_locks@
    }

    /// The events emitted so far.
    pub closed spec fn events(&self) -> Seq<Event> {
        self.events@
    }

    /// Everything but the events is the same in both states.
    pub closed spec fn same_storage(&self, other: &Eigenlayer) -> bool {
        &&& self.min_operator_stake == other.min_operator_stake
        &&& self.unstake_cooldown == other.unstake_cooldown
        &&& self.max_services_per_operator == other.max_services_per_operator
        &&& self.next_avs_id == other.next_avs_id
        &&& self.avs_configs@ == other.avs_configs@
        &&& self.operators@ == other.operators@
        &&& self.avs_operators@ == other.avs_operators@
        &&& self.stake_locks@ == other.stake_locks@
    }

    /// Nothing at all has changed.
    pub open spec fn unchanged(&self, other: &Eigenlayer) -> bool {
        self.same_storage(other) && self.events() == other.events()
    }

    /// Empty storage with the given limits.
    pub fn new(min_operator_stake: Balance, unstake_cooldown: BlockNumber, max_services_per_operator: u32) -> (pallet: Eigenlayer)
        ensures
            pallet.min_stake() == min_operator_stake,
            pallet.next_id() == 0,
            pallet.services() == Map::<AvsId, ActivelyValidatedService<AccountId, Balance>>::empty(),
            pallet.operator_map() == Map::<Seq<u8>, Operator<AccountId, Balance>>::empty(),
            forall|avs: AvsId| pallet.stakes_in(avs) == Map::<Seq<u8>, Balance>::empty(),
            pallet.locks() == Map::<Seq<u8>, Balance>::empty(),
            pallet.events() == Seq::<Event>::empty(),
    {
        let pallet = Eigenlayer {
            min_operator_stake,
            unstake_cooldown,
            max_services_per_operator,
            next_avs_id: 0,
            avs_configs: KeyedMap::new(),
            operators: KeyedMap::new(),
            avs_operators: KeyedMap::new(),
            stake_locks: KeyedMap::new(),
            events: Vec::new(),
        };
        assert(pallet.events@ =~= Seq::<Event>::empty());
        pallet
    }

    /// The id the next AVS gets.
    pub fn next_avs_id(&self) -> (id: AvsId)
        ensures
            id == self.next_id(),
    {
        self.next_avs_id
    }

    /// The configuration of an AVS.
    pub fn avs_configs(&self, avs: AvsId) -> (config: Option<&ActivelyValidatedService<AccountId, Balance>>)
        ensures
            match config {
                Some(c) => self.services().contains_key(avs) && *c == self.services()[avs],
                None => !self.services().contains_key(avs),
            },
    {
        self.avs_configs.get(&avs)
    }

    /// The record of an operator.
    pub fn operators(&self, account: &AccountId) -> (record: Option<&Operator<AccountId, Balance>>)
        ensures
            match record {
                Some(r) => self.operator_map().contains_key(account@) && *r == self.operator_map()[account@],
                None => !self.operator_map().contains_key(account@),
            },
    {
        self.operators.get(account)
    }

    /// The stake of an operator in an AVS (zero when it has none).
    pub fn avs_operators(&self, avs: AvsId, account: &AccountId) -> (stake: Balance)
        ensures
            stake == if self.stakes_in(avs).contains_key(account@) { self.stakes_in(avs)[account@] } else { 0 },
    {
        match self.avs_operators.get(&avs) {
            Some(inner) => match inner.get(account) {
                Some(s) => *s,
                None => 0,
            },
            None => 0,
        }
    }

    /// The amount locked under the restaking lock for an account (zero when none).
    pub fn stake_lock(&self, account: &AccountId) -> (amount: Balance)
        ensures
            amount == if self.locks().contains_key(account@) { self.locks()[account@] } else { 0 },
    {
        match self.stake_locks.get(account) {
            Some(a) => *a,
            None => 0,
        }
    }

    /// The events emitted so far.
    pub fn event_log(&self) -> (events: &[Event])
        ensures
            events@ == self.events(),
    {
        self.events.as_slice()
    }

    /// Register a new AVS (signed origin). The minimum stake must be positive, the maximum at
    /// least the minimum and the name non-empty; the AVS gets the next id, no stake, no
    /// operators and the entropy of `avs_entropy`. Fails, changing nothing, when the ids are
    /// used up.
    pub fn register_avs(
        &mut self,
        origin: Origin,
        name: Vec<u8>,
        min_stake: Balance,
        max_stake: Balance,
        config_hash: [u8; 32],
    ) -> (result: Result<(), DispatchError<Error>>)
        requires
            name@.len() <= u32::MAX,
        ensures
            !(origin is Signed) ==> result == Err::<(), DispatchError<Error>>(DispatchError::BadOrigin),
            origin is Signed && (min_stake == 0 || max_stake < min_stake || name@.len() == 0)
                ==> result == Err::<(), DispatchError<Error>>(DispatchError::Module(Error::InvalidAvsParams)),
            origin is Signed && min_stake > 0 && max_stake >= min_stake && name@.len() > 0 && old(self).next_id() == u32::MAX
                ==> result == Err::<(), DispatchError<Error>>(DispatchError::Module(Error::MathOverflow)),
            result is Ok <==> (origin is Signed && min_stake > 0 && max_stake >= min_stake && name@.len() > 0
                && old(self).next_id() < u32::MAX),
            result is Err ==> final(self).unchanged(old(self)),
            result is Ok ==> (origin matches Origin::Signed(who) && {
                let id = old(self).next_id();
                &&& final(self).services().dom() == old(self).services().dom().insert(id)
                &&& final(self).services().remove(id) == old(self).services().remove(id)
                &&& new_avs(final(self).services()[id], name@, who, min_stake, max_stake, config_hash)
                &&& final(self).next_id() == id + 1
                &&& final(self).operator_map() == old(self).operator_map()
                &&& final(self).locks() == old(self).locks()
                &&& forall|avs: AvsId| final(self).stakes_in(avs) == old(self).stakes_in(avs)
                &&& final(self).min_stake() == old(self).min_stake()
                &&& final(self).events().drop_last() == old(self).events()
                &&& final(self).events().len() == old(self).events().len() + 1
                &&& final(self).events().last() matches Event::AvsRegistered(c, i, n) && c == who && i == id && n@ == name@
            }),
    {
        let creator = ensure_signed(origin)?;
        if min_stake == 0 || max_stake < min_stake || name.len() == 0 {
            return Err(DispatchError::Module(Error::InvalidAvsParams));
        }
        let avs_id = self.next_avs_id;
        if avs_id == u32::MAX {
            return Err(DispatchError::Module(Error::MathOverflow));
        }
        let quantum_entropy = generate_avs_entropy(&creator, &name, &config_hash);
        let event_name = crate::scale::copy_all(name.as_slice());
        let avs = ActivelyValidatedService {
            name,
            creator,
            total_staked: 0,
            min_stake,
            max_stake,
            operator_count: 0,
            quorum_certified: false,
            config_hash,
            quantum_entropy,
        };
        self.avs_configs.insert(avs_id, avs);
        self.next_avs_id = avs_id + 1;
        self.events.push(Event::AvsRegistered(creator, avs_id, event_name));
        proof {
            assert(self.avs_configs@.dom() =~= old(self).avs_configs@.dom().insert(avs_id));
            assert(self.avs_configs@.remove(avs_id) =~= old(self).avs_configs@.remove(avs_id));
            assert(self.events@.drop_last() =~= old(self).events@);
        }
        Ok(())
    }

    /// Register as an operator (signed origin) with `stake_amount`, at block `block`: the
    /// account may not be registered yet and the stake must reach the minimum. The stake is
    /// locked under the restaking lock and the operator starts active, in no AVS, with the
    /// entropy of `operator_entropy`.
    pub fn register_operator(
        &mut self,
        origin: Origin,
        stake_amount: Balance,
        block: BlockNumber,
    ) -> (result: Result<(), DispatchError<Error>>)
        ensures
            !(origin is Signed) ==> result == Err::<(), DispatchError<Error>>(DispatchError::BadOrigin),
            origin matches Origin::Signed(who) && old(self).operator_map().contains_key(who@)
                ==> result == Err::<(), DispatchError<Error>>(DispatchError::Module(Error::OperatorAlreadyRegistered)),
            origin matches Origin::Signed(who) && !old(self).operator_map().contains_key(who@) && stake_amount < old(self).min_stake()
                ==> result == Err::<(), DispatchError<Error>>(DispatchError::Module(Error::InsufficientStake)),
            result is Ok <==> (origin matches Origin::Signed(who) && !old(self).operator_map().contains_key(who@)
                && stake_amount >= old(self).min_stake()),
            result is Err ==> final(self).unchanged(old(self)),
            result is Ok ==> (origin matches Origin::Signed(who) && {
                &&& final(self).operator_map().dom() == old(self).operator_map().dom().insert(who@)
                &&& final(self).operator_map().remove(who@) == old(self).operator_map().remove(who@)
                &&& new_operator(final(self).operator_map()[who@], who, stake_amount, block)
                &&& final(self).locks() == old(self).locks().insert(who@, stake_amount)
                &&& final(self).services() == old(self).services()
                &&& final(self).next_id() == old(self).next_id()
                &&& forall|avs: AvsId| final(self).stakes_in(avs) == old(self).stakes_in(avs)
                &&& final(self).min_stake() == old(self).min_stake()
                &&& final(self).events() == old(self).events().push(Event::OperatorRegistered(who, stake_amount))
            }),
    {
        let operator = ensure_signed(origin)?;
        if self.operators.contains_key(&operator) {
            return Err(DispatchError::Module(Error::OperatorAlreadyRegistered));
        }
        if stake_amount < self.min_operator_stake {
            return Err(DispatchError::Module(Error::InsufficientStake));
        }
        let quantum_entropy = generate_operator_entropy(&operator, block);
        let record = Operator {
            account: operator,
            restaked_amount: stake_amount,
            services: Vec::new(),
            status: OperatorStatus::Active,
            exit_start: None,
            cumulative_rewards: 0,
            quantum_entropy,
        };
        self.stake_locks.insert(operator, stake_amount);
        self.operators.insert(operator, record);
        self.events.push(Event::OperatorRegistered(operator, stake_amount));
        proof {
            assert(self.operators@.dom() =~= old(self).operators@.dom().insert(operator@));
            assert(self.operators@.remove(operator@) =~= old(self).operators@.remove(operator@));
        }
        Ok(())
    }
}

} // verus!
