//! A daemonless oracle: data feeds with authorized submitters, whose submissions are
//! aggregated on chain once enough of them arrived.
use vstd::prelude::*;
use crate::hashing::{blake2_128, blake2_128_digest, blake3_digest, digest2, digest3};
use crate::byte_order::{KeyPosition, compare_keys, lemma_lex_lt_transitive, lex_lt};
use crate::keyed_map::{KeyedMap, StorageKey, inner_of, lemma_inner_removed, nested_get, nested_insert};
use crate::runtime::{AccountId, BlockNumber, DispatchError, Origin, ensure_signed};
use crate::scale::{append_bytes, copy_all, scale_bytes, scale_encode_bytes};
use crate::weights::Weight;

verus! {

/// The identifier of a feed.
pub type FeedId = [u8; 32];

/// Feed type identifiers.
#[derive(Clone, Debug, PartialEq, Eq)]
pub enum FeedType {
    /// Price feed (asset prices).
    Price,
    /// Weather feed (temperature, humidity, ...).
    Weather,
    /// Supply chain verification feed.
    SupplyChain,
    /// Sustainability metrics feed.
    Sustainability,
    /// Custom feed type (general purpose).
    Custom(Vec<u8>),
}

/// Aggregation methods for combining several submissions.
#[derive(Clone, Copy, Debug, PartialEq, Eq, Structural)]
pub enum AggregationMethod {
    /// Mean of values.
    Mean,
    /// Median of values.
    Median,
    /// Mode (most common value).
    Mode,
    /// Mean weighted by submitter reputation.
    WeightedMean,
    /// IMRT Enneareal consensus (quantum-optimized aggregation).
    IMRTEnneareal,
}

/// Data feed configuration.
#[derive(Clone, Debug, PartialEq, Eq)]
pub struct DataFeed<AccountId, BlockNumber> {
    /// Feed identifier.
    pub feed_id: [u8; 32],
    /// Creator of the feed.
    pub creator: AccountId,
    /// Feed type.
    pub feed_type: FeedType,
    /// Feed description.
    pub description: Vec<u8>,
    /// Minimum submissions required for aggregation.
    pub min_submissions: u32,
    /// Maximum submissions considered for aggregation.
    pub max_submissions: u32,
    /// Reward per submission.
    pub reward_amount: u128,
    /// Aggregation method.
    pub aggregation_method: AggregationMethod,
    /// Thrice-nested quantum entropy.
    pub quantum_entropy: [u8; 96],
    /// Block of the last update.
    pub last_update: Option<BlockNumber>,
    /// Update interval in blocks (0 means manual updates only).
    pub update_interval: BlockNumber,
    /// Whether the feed is active.
    pub active: bool,
}

/// A data point submission with a quantum-resistant signature.
#[derive(Clone, Debug, PartialEq, Eq)]
pub struct DataSubmission<AccountId, BlockNumber> {
    /// Submitter account.
    pub submitter: AccountId,
    /// Feed id.
    pub feed_id: [u8; 32],
    /// Block of the submission.
    pub timestamp: BlockNumber,
    /// The data, encoded as the feed type prescribes.
    pub data: Vec<u8>,
    /// Quantum-resistant signature.
    pub signature: Vec<u8>,
}

/// The latest value of a feed.
#[derive(Clone, Debug, PartialEq, Eq)]
pub struct FeedValue<BlockNumber> {
    /// Aggregated value.
    pub value: Vec<u8>,
    /// Block of the update.
    pub timestamp: BlockNumber,
    /// Number of submissions aggregated.
    pub submission_count: u32,
    /// Confidence score (0-100).
    pub confidence: u8,
}

/// Events of the oracle pallet.
#[derive(Clone, Debug, PartialEq, Eq)]
pub enum Event {
    /// A new data feed was created: creator, feed id, feed type.
    FeedCreated(AccountId, FeedId, FeedType),
    /// A data feed was updated: feed id, block, submission count.
    FeedUpdated(FeedId, BlockNumber, u32),
    /// A submitter was added to a feed.
    SubmitterAdded(FeedId, AccountId),
    /// A submitter was removed from a feed.
    SubmitterRemoved(FeedId, AccountId),
    /// A data submission was received: feed id, submitter, block.
    DataSubmitted(FeedId, AccountId, BlockNumber),
    /// A feed was activated.
    FeedActivated(FeedId),
    /// A feed was deactivated.
    FeedDeactivated(FeedId),
}

/// Errors of the oracle pallet.
#[derive(Clone, Copy, Debug, PartialEq, Eq, Structural)]
pub enum Error {
    /// Feed does not exist.
    FeedNotFound,
    /// Submitter not authorized for this feed.
    UnauthorizedSubmitter,
    /// Feed already exists.
    FeedAlreadyExists,
    /// Description too long.
    DescriptionTooLong,
    /// Data submission too large.
    DataTooLarge,
    /// Invalid aggregation method for feed type.
    InvalidAggregationMethod,
    /// Invalid update interval.
    InvalidUpdateInterval,
    /// Invalid feed parameters.
    InvalidFeedParameters,
    /// Not enough submissions for aggregation.
    NotEnoughSubmissions,
    /// Submitter already authorized.
    SubmitterAlreadyAuthorized,
    /// Invalid signature.
    InvalidSignature,
    /// Math overflow.
    MathOverflow,
    /// Feed inactive.
    FeedInactive,
    /// Unauthorized operation.
    Unauthorized,
}

/// Weights of the oracle calls.
pub trait WeightInfo {
    fn create_feed() -> Weight;
    fn add_submitter() -> Weight;
    fn remove_submitter() -> Weight;
    fn submit_data() -> Weight;
    fn activate_feed() -> Weight;
    fn deactivate_feed() -> Weight;
}

/// Two feed types are the same (custom names compared by content).
pub open spec fn same_feed_type(a: FeedType, b: FeedType) -> bool {
    match (a, b) {
        (FeedType::Custom(x), FeedType::Custom(y)) => x@ == y@,
        (FeedType::Custom(_), _) => false,
        (_, FeedType::Custom(_)) => false,
        _ => a == b,
    }
}

/// The SCALE encoding of a feed type: its variant index, then a custom type's name.
pub open spec fn feed_type_encoding(t: FeedType) -> Seq<u8> {
    match t {
        FeedType::Price => seq![0u8],
        FeedType::Weather => seq![1u8],
        FeedType::SupplyChain => seq![2u8],
        FeedType::Sustainability => seq![3u8],
        FeedType::Custom(name) => seq![4u8] + scale_bytes(name@),
    }
}

/// Whether a feed type fits the codec (a custom name of at most `u32::MAX` bytes).
pub open spec fn feed_type_encodable(t: FeedType) -> bool {
    match t {
        FeedType::Custom(name) => name@.len() <= u32::MAX,
        _ => true,
    }
}

/// Encode a feed type.
pub fn encode_feed_type(t: &FeedType) -> (encoded: Vec<u8>)
    requires
        feed_type_encodable(*t),
    ensures
        encoded@ == feed_type_encoding(*t),
{
    let mut out: Vec<u8> = Vec::new();
    match t {
        FeedType::Price => out.push(0u8),
        FeedType::Weather => out.push(1u8),
        FeedType::SupplyChain => out.push(2u8),
        FeedType::Sustainability => out.push(3u8),
        FeedType::Custom(name) => {
            out.push(4u8);
            let tail = scale_encode_bytes(name.as_slice());
            append_bytes(&mut out, tail.as_slice());
        },
    }
    assert(out@ =~= feed_type_encoding(*t));
    out
}

/// A copy of a feed type.
pub fn copy_feed_type(t: &FeedType) -> (c: FeedType)
    ensures
        same_feed_type(c, *t),
{
    match t {
        FeedType::Price => FeedType::Price,
        FeedType::Weather => FeedType::Weather,
        FeedType::SupplyChain => FeedType::SupplyChain,
        FeedType::Sustainability => FeedType::Sustainability,
        FeedType::Custom(name) => FeedType::Custom(copy_all(name.as_slice())),
    }
}

/// The id of a feed: the BLAKE3 digest of the creator's account, the encoded feed type and the
/// description.
pub open spec fn feed_id_of(creator: AccountId, feed_type: FeedType, description: Seq<u8>) -> Seq<u8> {
    blake3_digest(creator@ + feed_type_encoding(feed_type) + description)
}

/// Generate the id of a feed.
pub fn generate_feed_id(creator: &AccountId, feed_type: &FeedType, description: &[u8]) -> (id: FeedId)
    requires
        feed_type_encodable(*feed_type),
    ensures
        id@ == feed_id_of(*creator, *feed_type, description@),
{
    let feed_type_bytes = encode_feed_type(feed_type);
    digest3(creator.as_slice(), feed_type_bytes.as_slice(), description)
}

/// Thrice-nested entropy of a feed: the outer layer hashes the creator's account and the feed
/// id, the middle one the outer layer and the encoded feed type, the inner one both layers and
/// the encoded random value.
pub open spec fn feed_entropy(creator: AccountId, feed_id: Seq<u8>, feed_type: FeedType, random: Seq<u8>) -> Seq<u8> {
    let fe = blake3_digest(creator@ + feed_id);
    let ni = blake3_digest(fe + feed_type_encoding(feed_type));
    let co = blake3_digest(fe + ni + random);
    fe + ni + co
}

/// Generate the thrice-nested entropy of a feed; `random` is the encoded output of the
/// runtime's randomness source for the creator's account.
pub fn generate_feed_entropy(creator: &AccountId, feed_id: &FeedId, feed_type: &FeedType, random: &[u8]) -> (entropy: [u8; 96])
    requires
        feed_type_encodable(*feed_type),
    ensures
        entropy@ == feed_entropy(*creator, feed_id@, *feed_type, random@),
{
    let feed_type_bytes = encode_feed_type(feed_type);
    let fe = digest2(creator.as_slice(), feed_id.as_slice());
    let ni = digest2(fe.as_slice(), feed_type_bytes.as_slice());
    let co = digest3(fe.as_slice(), ni.as_slice(), random);
    crate::eigenlayer::join_layers(&fe, &ni, &co)
}

/// Check that an aggregation method suits a feed type: every combination is accepted.
pub fn validate_aggregation_method(feed_type: &FeedType, method: &AggregationMethod) -> (result: Result<(), Error>)
    ensures
        result is Ok,
{
    Ok(())
}

/// The key under which the store files a submitter below a feed: the BLAKE2b-128 digest of
/// the account followed by the account itself. Submissions are walked in the order of these
/// keys.
pub open spec fn submitter_key(account: Seq<u8>) -> Seq<u8> {
    blake2_128_digest(account) + account
}

/// The store key of a submitter.
fn submitter_key_of(account: &AccountId) -> (key: Vec<u8>)
    ensures
        key@ == submitter_key(account@),
        key@.len() == 48,
{
    let digest = blake2_128(account.as_slice());
    let mut key: Vec<u8> = Vec::new();
    append_bytes(&mut key, digest.as_slice());
    append_bytes(&mut key, account.as_slice());
    key
}

/// The submitter whose submission the store walks last: its key comes after every other one.
pub open spec fn walked_last<V>(subs: Map<Seq<u8>, V>, m: Seq<u8>) -> bool {
    &&& subs.contains_key(m)
    &&& forall|a: Seq<u8>| #[trigger] subs.contains_key(a) && a != m ==> lex_lt(submitter_key(a), submitter_key(m))
}

/// The submitter that the store walks last, if there is any submission.
fn last_submitter<V>(subs: &KeyedMap<AccountId, V>) -> (last: Option<AccountId>)
    ensures
        match last {
            Some(m) => walked_last(subs@, m@) && subs@.dom().len() > 0,
            None => subs@.dom().len() == 0,
        },
{
    let keys = subs.keys();
    let ghost order = subs.key_seq();
    proof {
        assert forall|j: int| 0 <= j < keys@.len() implies #[trigger] keys@[j]@ == order[j] by {
            assert(keys@.map_values(|k: AccountId| k@)[j] == keys@[j]@);
        }
    }
    if keys.len() == 0 {
        proof {
            assert(order =~= Seq::<Seq<u8>>::empty());
            assert(subs@.dom() =~= Set::<Seq<u8>>::empty());
        }
        return None;
    }
    let mut best: usize = 0;
    let mut best_key = submitter_key_of(&keys[0]);
    let mut i: usize = 1;
    while i < keys.len()
        invariant
            keys@.len() == order.len(),
            forall|j: int| 0 <= j < keys@.len() ==> #[trigger] keys@[j]@ == order[j],
            order.no_duplicates(),
            1 <= i <= keys@.len(),
            best < i,
            best_key@ == submitter_key(keys@[best as int]@),
            best_key@.len() == 48,
            forall|j: int| 0 <= j < i && j != best ==> lex_lt(submitter_key(#[trigger] keys@[j]@), submitter_key(keys@[best as int]@)),
        decreases keys@.len() - i,
    {
        let key = submitter_key_of(&keys[i]);
        match compare_keys(best_key.as_slice(), key.as_slice()) {
            KeyPosition::Before => {
                proof {
                    assert forall|j: int| 0 <= j < i + 1 && j != i implies lex_lt(submitter_key(#[trigger] keys@[j]@), submitter_key(keys@[i as int]@)) by {
                        if j != best {
                            lemma_lex_lt_transitive(submitter_key(keys@[j]@), submitter_key(keys@[best as int]@), submitter_key(keys@[i as int]@));
                        }
                    }
                }
                best = i;
                best_key = key;
            },
            KeyPosition::After => {},
            KeyPosition::Same => {
                proof {
                    let x = keys@[best as int]@;
                    let y = keys@[i as int]@;
                    assert(submitter_key(x).subrange(16, 48) =~= x);
                    assert(submitter_key(y).subrange(16, 48) =~= y);
                    assert(order[best as int] == order[i as int]);
                }
            },
        }
        i = i + 1;
    }
    proof {
        assert forall|a: Seq<u8>| #[trigger] subs@.contains_key(a) && a != keys@[best as int]@
            implies lex_lt(submitter_key(a), submitter_key(keys@[best as int]@)) by {
            assert(order.to_set().contains(a));
            let j = choose|j: int| 0 <= j < order.len() && order[j] == a;
            assert(keys@[j]@ == a);
        }
        assert(order.to_set().contains(order[best as int]));
    }
    Some(keys[best])
}

/// The feed that `create_feed` stores.
pub open spec fn new_feed(
    feed: DataFeed<AccountId, BlockNumber>,
    feed_id: Seq<u8>,
    creator: AccountId,
    feed_type: FeedType,
    description: Seq<u8>,
    min_submissions: u32,
    max_submissions: u32,
    reward_amount: u128,
    aggregation_method: AggregationMethod,
    update_interval: BlockNumber,
    random: Seq<u8>,
) -> bool {
    &&& feed.feed_id@ == feed_id
    &&& feed.creator == creator
    &&& same_feed_type(feed.feed_type, feed_type)
    &&& feed.description@ == description
    &&& feed.min_submissions == min_submissions
    &&& feed.max_submissions == max_submissions
    &&& feed.reward_amount == reward_amount
    &&& feed.aggregation_method == aggregation_method
    &&& feed.quantum_entropy@ == feed_entropy(creator, feed_id, feed_type, random)
    &&& feed.last_update is None
    &&& feed.update_interval == update_interval
    &&& feed.active
}

/// The value that aggregating `subs` at block `now` gives: the data of the submission that the
/// store walks last, with the number of submissions and a confidence of 90.
pub open spec fn aggregated(value: FeedValue<BlockNumber>, subs: Map<Seq<u8>, DataSubmission<AccountId, BlockNumber>>, now: BlockNumber) -> bool {
    &&& exists|m: Seq<u8>| walked_last(subs, m) && value.value@ == (#[trigger] subs[m]).data@
    &&& value.timestamp == now
    &&& value.submission_count == subs.dom().len() as u32
    &&& value.confidence == 90
}

/// The same feed, updated at block `now`.
pub open spec fn feed_updated(new: DataFeed<AccountId, BlockNumber>, old: DataFeed<AccountId, BlockNumber>, now: BlockNumber) -> bool {
    new == DataFeed { last_update: Some(now), ..old }
}

/// The storage of the oracle pallet.
pub struct Oracle {
    max_description_length: u32,
    max_data_size: u32,
    data_feeds: KeyedMap<FeedId, DataFeed<AccountId, BlockNumber>>,
    feed_values: KeyedMap<FeedId, FeedValue<BlockNumber>>,
    feed_submitters: KeyedMap<FeedId, KeyedMap<AccountId, bool>>,
    submitter_reputations: KeyedMap<FeedId, KeyedMap<AccountId, u8>>,
    current_submissions: KeyedMap<FeedId, KeyedMap<AccountId, DataSubmission<AccountId, BlockNumber>>>,
    events: Vec<Event>,
}

impl Oracle {
    /// The longest description a feed may have.
    pub closed spec fn max_description(&self) -> u32 {
        self.max_description_length
    }

    /// The largest data a submission may carry.
    pub closed spec fn max_data(&self) -> u32 {
        self.max_data_size
    }

    /// The feeds, by id.
    pub closed spec fn feeds(&self) -> Map<Seq<u8>, DataFeed<AccountId, BlockNumber>> {
        self.data_feeds@
    }

    /// The current value of each feed, by id.
    pub closed spec fn values(&self) -> Map<Seq<u8>, FeedValue<BlockNumber>> {
        self.feed_values@
    }

    /// The submitters recorded for a feed.
    pub closed spec fn submitters_of(&self, feed: Seq<u8>) -> Map<Seq<u8>, bool> {
        inner_of(self.feed_submitters@, feed)
    }

    /// The reputations of a feed's submitters.
    pub closed spec fn reputations_of(&self, feed: Seq<u8>) -> Map<Seq<u8>, u8> {
        inner_of(self.submitter_reputations@, feed)
    }

    /// The submissions of the current round of a feed.
    pub closed spec fn submissions_of(&self, feed: Seq<u8>) -> Map<Seq<u8>, DataSubmission<AccountId, BlockNumber>> {
        inner_of(self.current_submissions@, feed)
    }

    /// The events emitted so far.
    pub closed spec fn events(&self) -> Seq<Event> {
        self.events@
    }

    /// Nothing at all has changed.
    pub closed spec fn unchanged(&self, other: &Oracle) -> bool {
        &&& self.max_description_length == other.max_description_length
        &&& self.max_data_size == other.max_data_size
        &&& self.data_feeds@ == other.data_feeds@
        &&& self.feed_values@ == other.feed_values@
        &&& self.feed_submitters@ == other.feed_submitters@
        &&& self.submitter_reputations@ == other.submitter_reputations@
        &&& self.current_submissions@ == other.current_submissions@
        &&& self.events@ == other.events@
    }

    /// Only the submitter records of `feed` changed, and the events.
    pub closed spec fn submitters_changed_only(&self, other: &Oracle, feed: Seq<u8>) -> bool {
        &&& self.max_description_length == other.max_description_length
        &&& self.max_data_size == other.max_data_size
        &&& self.feed_values@ == other.feed_values@
        &&& self.current_submissions@ == other.current_submissions@
        &&& self.feed_submitters@.remove(feed) == other.feed_submitters@.remove(feed)
        &&& self.submitter_reputations@.remove(feed) == other.submitter_reputations@.remove(feed)
    }

    /// Empty storage with the given limits.
    pub fn new(max_description_length: u32, max_data_size: u32) -> (pallet: Oracle)
        ensures
            pallet.max_description() == max_description_length,
            pallet.max_data() == max_data_size,
            pallet.feeds() == Map::<Seq<u8>, DataFeed<AccountId, BlockNumber>>::empty(),
            pallet.values() == Map::<Seq<u8>, FeedValue<BlockNumber>>::empty(),
            forall|f: Seq<u8>| pallet.submitters_of(f) == Map::<Seq<u8>, bool>::empty(),
            forall|f: Seq<u8>| pallet.reputations_of(f) == Map::<Seq<u8>, u8>::empty(),
            forall|f: Seq<u8>| pallet.submissions_of(f) == Map::<Seq<u8>, DataSubmission<AccountId, BlockNumber>>::empty(),
            pallet.events() == Seq::<Event>::empty(),
    {
        let pallet = Oracle {
            max_description_length,
            max_data_size,
            data_feeds: KeyedMap::new(),
            feed_values: KeyedMap::new(),
            feed_submitters: KeyedMap::new(),
            submitter_reputations: KeyedMap::new(),
            current_submissions: KeyedMap::new(),
            events: Vec::new(),
        };
        assert(pallet.events@ =~= Seq::<Event>::empty());
        pallet
    }

    /// A feed's configuration.
    pub fn data_feeds(&self, feed_id: &FeedId) -> (feed: Option<&DataFeed<AccountId, BlockNumber>>)
        ensures
            match feed {
                Some(f) => self.feeds().contains_key(feed_id@) && *f == self.feeds()[feed_id@],
                None => !self.feeds().contains_key(feed_id@),
            },
    {
        self.data_feeds.get(feed_id)
    }

    /// A feed's current value.
    pub fn feed_values(&self, feed_id: &FeedId) -> (value: Option<&FeedValue<BlockNumber>>)
        ensures
            match value {
                Some(v) => self.values().contains_key(feed_id@) && *v == self.values()[feed_id@],
                None => !self.values().contains_key(feed_id@),
            },
    {
        self.feed_values.get(feed_id)
    }

    /// Whether an account may submit to a feed (false when nothing is recorded).
    pub fn feed_submitters(&self, feed_id: &FeedId, account: &AccountId) -> (allowed: bool)
        ensures
            allowed == (self.submitters_of(feed_id@).contains_key(account@) && self.submitters_of(feed_id@)[account@]),
    {
        match nested_get(&self.feed_submitters, feed_id, account) {
            Some(a) => *a,
            None => false,
        }
    }

    /// An account's reputation in a feed (zero when nothing is recorded).
    pub fn submitter_reputations(&self, feed_id: &FeedId, account: &AccountId) -> (reputation: u8)
        ensures
            reputation == if self.reputations_of(feed_id@).contains_key(account@) { self.reputations_of(feed_id@)[account@] } else { 0 },
    {
        match nested_get(&self.submitter_reputations, feed_id, account) {
            Some(r) => *r,
            None => 0,
        }
    }

    /// An account's submission to the current round of a feed.
    pub fn current_submissions(&self, feed_id: &FeedId, account: &AccountId) -> (submission: Option<&DataSubmission<AccountId, BlockNumber>>)
        ensures
            match submission {
                Some(s) => self.submissions_of(feed_id@).contains_key(account@) && *s == self.submissions_of(feed_id@)[account@],
                None => !self.submissions_of(feed_id@).contains_key(account@),
            },
    {
        nested_get(&self.current_submissions, feed_id, account)
    }

    /// The events emitted so far.
    pub fn event_log(&self) -> (events: &[Event])
        ensures
            events@ == self.events(),
    {
        self.events.as_slice()
    }

    /// Start of block `n`: feeds are updated by their submissions only, so nothing is done.
    pub fn on_initialize(&self, n: BlockNumber) -> (weight: Weight)
        ensures
            weight.ref_time == 0 && weight.proof_size == 0,
    {
        Weight::zero()
    }

    /// Off-chain work for block `n`: there is none.
    pub fn offchain_worker(&self, n: BlockNumber) {
    }
}

impl Oracle {
    /// Create a data feed (signed origin). The description may not exceed the pallet's limit,
    /// the minimum of submissions must be positive and the maximum at least the minimum; the
    /// feed is filed under `feed_id_of` unless that id is taken, carries the entropy of
    /// `feed_entropy` (`random` is the encoded output of the runtime's randomness source for the
    /// creator's account) and has its creator as first submitter, with reputation 80.
    pub fn create_feed(
        &mut self,
        origin: Origin,
        feed_type: FeedType,
        description: Vec<u8>,
        min_submissions: u32,
        max_submissions: u32,
        reward_amount: u128,
        aggregation_method: AggregationMethod,
        update_interval: BlockNumber,
        random: [u8; 32],
    ) -> (result: Result<(), DispatchError<Error>>)
        requires
            feed_type_encodable(feed_type),
        ensures
            !(origin is Signed) ==> result == Err::<(), DispatchError<Error>>(DispatchError::BadOrigin),
            origin is Signed && description@.len() > old(self).max_description()
                ==> result == Err::<(), DispatchError<Error>>(DispatchError::Module(Error::DescriptionTooLong)),
            origin is Signed && description@.len() <= old(self).max_description() && (min_submissions == 0 || max_submissions < min_submissions)
                ==> result == Err::<(), DispatchError<Error>>(DispatchError::Module(Error::InvalidFeedParameters)),
            origin matches Origin::Signed(who) && description@.len() <= old(self).max_description() && min_submissions > 0
                && max_submissions >= min_submissions && old(self).feeds().contains_key(feed_id_of(who, feed_type, description@))
                ==> result == Err::<(), DispatchError<Error>>(DispatchError::Module(Error::FeedAlreadyExists)),
            result is Ok <==> (origin matches Origin::Signed(who) && description@.len() <= old(self).max_description()
                && min_submissions > 0 && max_submissions >= min_submissions
                && !old(self).feeds().contains_key(feed_id_of(who, feed_type, description@))),
            result is Err ==> final(self).unchanged(old(self)),
            result is Ok ==> (origin matches Origin::Signed(who) && {
                let id = feed_id_of(who, feed_type, description@);
                &&& final(self).feeds().dom() == old(self).feeds().dom().insert(id)
                &&& final(self).feeds().remove(id) == old(self).feeds().remove(id)
                &&& new_feed(final(self).feeds()[id], id, who, feed_type, description@, min_submissions, max_submissions,
                    reward_amount, aggregation_method, update_interval, random@)
                &&& final(self).submitters_of(id) == old(self).submitters_of(id).insert(who@, true)
                &&& final(self).reputations_of(id) == old(self).reputations_of(id).insert(who@, 80)
                &&& final(self).submitters_changed_only(old(self), id)
                &&& final(self).events().len() == old(self).events().len() + 2
                &&& final(self).events().subrange(0, old(self).events().len() as int) == old(self).events()
                &&& final(self).events()[old(self).events().len() as int] matches Event::FeedCreated(c, f, t)
                    && c == who && f@ == id && same_feed_type(t, feed_type)
                &&& final(self).events().last() matches Event::SubmitterAdded(f, s) && f@ == id && s == who
            }),
    {
        let creator = ensure_signed(origin)?;
        if description.len() > self.max_description_length as usize {
            return Err(DispatchError::Module(Error::DescriptionTooLong));
        }
        if min_submissions == 0 || max_submissions < min_submissions {
            return Err(DispatchError::Module(Error::InvalidFeedParameters));
        }
        match validate_aggregation_method(&feed_type, &aggregation_method) {
            Ok(()) => {},
            Err(e) => { return Err(DispatchError::Module(e)); },
        }
        let feed_id = generate_feed_id(&creator, &feed_type, description.as_slice());
        if self.data_feeds.contains_key(&feed_id) {
            return Err(DispatchError::Module(Error::FeedAlreadyExists));
        }
        let quantum_entropy = generate_feed_entropy(&creator, &feed_id, &feed_type, random.as_slice());
        let event_type = copy_feed_type(&feed_type);
        let feed = DataFeed {
            feed_id,
            creator,
            feed_type,
            description,
            min_submissions,
            max_submissions,
            reward_amount,
            aggregation_method,
            quantum_entropy,
            last_update: None,
            update_interval,
            active: true,
        };
        self.data_feeds.insert(feed_id, feed);
        let ghost old_submitters = self.feed_submitters@;
        let ghost old_reputations = self.submitter_reputations@;
        nested_insert(&mut self.feed_submitters, &feed_id, creator, true);
        nested_insert(&mut self.submitter_reputations, &feed_id, creator, 80u8);
        self.events.push(Event::FeedCreated(creator, feed_id, event_type));
        self.events.push(Event::SubmitterAdded(feed_id, creator));
        proof {
            assert(self.data_feeds@.dom() =~= old(self).data_feeds@.dom().insert(feed_id@));
            assert(self.data_feeds@.remove(feed_id@) =~= old(self).data_feeds@.remove(feed_id@));
            assert(self.events@.subrange(0, old(self).events@.len() as int) =~= old(self).events@);
        }
        Ok(())
    }

    /// Authorize `submitter` for a feed (signed by the feed's creator), with reputation 50.
    pub fn add_submitter(
        &mut self,
        origin: Origin,
        feed_id: FeedId,
        submitter: AccountId,
    ) -> (result: Result<(), DispatchError<Error>>)
        ensures
            !(origin is Signed) ==> result == Err::<(), DispatchError<Error>>(DispatchError::BadOrigin),
            origin is Signed && !old(self).feeds().contains_key(feed_id@)
                ==> result == Err::<(), DispatchError<Error>>(DispatchError::Module(Error::FeedNotFound)),
            origin matches Origin::Signed(who) && old(self).feeds().contains_key(feed_id@) && old(self).feeds()[feed_id@].creator@ != who@
                ==> result == Err::<(), DispatchError<Error>>(DispatchError::Module(Error::Unauthorized)),
            origin matches Origin::Signed(who) && old(self).feeds().contains_key(feed_id@) && old(self).feeds()[feed_id@].creator@ == who@
                && old(self).submitters_of(feed_id@).contains_key(submitter@)
                ==> result == Err::<(), DispatchError<Error>>(DispatchError::Module(Error::SubmitterAlreadyAuthorized)),
            result is Ok <==> (origin matches Origin::Signed(who) && old(self).feeds().contains_key(feed_id@)
                && old(self).feeds()[feed_id@].creator@ == who@ && !old(self).submitters_of(feed_id@).contains_key(submitter@)),
            result is Err ==> final(self).unchanged(old(self)),
            result is Ok ==> {
                &&& final(self).feeds() == old(self).feeds()
                &&& final(self).submitters_of(feed_id@) == old(self).submitters_of(feed_id@).insert(submitter@, true)
                &&& final(self).reputations_of(feed_id@) == old(self).reputations_of(feed_id@).insert(submitter@, 50)
                &&& final(self).submitters_changed_only(old(self), feed_id@)
                &&& final(self).events() == old(self).events().push(Event::SubmitterAdded(feed_id, submitter))
            },
    {
        let who = ensure_signed(origin)?;
        match self.data_feeds.get(&feed_id) {
            Some(feed) => {
                if !feed.creator.key_eq(&who) {
                    return Err(DispatchError::Module(Error::Unauthorized));
                }
            },
            None => { return Err(DispatchError::Module(Error::FeedNotFound)); },
        }
        if nested_get(&self.feed_submitters, &feed_id, &submitter).is_some() {
            return Err(DispatchError::Module(Error::SubmitterAlreadyAuthorized));
        }
        nested_insert(&mut self.feed_submitters, &feed_id, submitter, true);
        nested_insert(&mut self.submitter_reputations, &feed_id, submitter, 50u8);
        self.events.push(Event::SubmitterAdded(feed_id, submitter));
        Ok(())
    }
}

impl Oracle {
    /// Only the current round of `feed`, the feed's record and its value changed, and the
    /// events.
    pub closed spec fn round_changed_only(&self, other: &Oracle, feed: Seq<u8>) -> bool {
        &&& self.max_description_length == other.max_description_length
        &&& self.max_data_size == other.max_data_size
        &&& self.feed_submitters@ == other.feed_submitters@
        &&& self.submitter_reputations@ == other.submitter_reputations@
        &&& self.current_submissions@.remove(feed) == other.current_submissions@.remove(feed)
        &&& self.data_feeds@.remove(feed) == other.data_feeds@.remove(feed)
        &&& self.feed_values@.remove(feed) == other.feed_values@.remove(feed)
    }

    /// Aggregate the current round of a feed at block `now`: with enough submissions, the feed's
    /// value becomes the data of the submission the store walks last, the feed records the
    /// update and the round starts over.
    fn update_feed_value(&mut self, feed_id: &FeedId, now: BlockNumber) -> (result: Result<(), DispatchError<Error>>)
        ensures
            !old(self).feeds().contains_key(feed_id@)
                ==> result == Err::<(), DispatchError<Error>>(DispatchError::Module(Error::FeedNotFound)),
            old(self).feeds().contains_key(feed_id@)
                && (old(self).submissions_of(feed_id@).dom().len() as u32) < old(self).feeds()[feed_id@].min_submissions
                ==> result == Err::<(), DispatchError<Error>>(DispatchError::Module(Error::NotEnoughSubmissions)),
            result is Ok <==> (old(self).feeds().contains_key(feed_id@)
                && (old(self).submissions_of(feed_id@).dom().len() as u32) >= old(self).feeds()[feed_id@].min_submissions),
            result is Err || old(self).submissions_of(feed_id@).dom().len() == 0 ==> final(self).unchanged(old(self)),
            result is Ok && old(self).submissions_of(feed_id@).dom().len() > 0 ==> {
                let subs = old(self).submissions_of(feed_id@);
                &&& final(self).round_changed_only(old(self), feed_id@)
                &&& final(self).values().dom() == old(self).values().dom().insert(feed_id@)
                &&& aggregated(final(self).values()[feed_id@], subs, now)
                &&& final(self).feeds().dom() == old(self).feeds().dom()
                &&& feed_updated(final(self).feeds()[feed_id@], old(self).feeds()[feed_id@], now)
                &&& final(self).submissions_of(feed_id@) == Map::<Seq<u8>, DataSubmission<AccountId, BlockNumber>>::empty()
                &&& final(self).events() == old(self).events().push(Event::FeedUpdated(*feed_id, now, subs.dom().len() as u32))
            },
    {
        let min_submissions = match self.data_feeds.get(feed_id) {
            Some(feed) => feed.min_submissions,
            None => { return Err(DispatchError::Module(Error::FeedNotFound)); },
        };
        let empty: KeyedMap<AccountId, DataSubmission<AccountId, BlockNumber>> = KeyedMap::new();
        let (count, last, value) = match self.current_submissions.get(feed_id) {
            Some(subs) => {
                let count = subs.len() as u32;
                match last_submitter(subs) {
                    Some(m) => {
                        let value = match subs.get(&m) {
                            Some(sub) => copy_all(sub.data.as_slice()),
                            None => Vec::new(),
                        };
                        (count, Some(m), value)
                    },
                    None => (count, None, Vec::new()),
                }
            },
            None => {
                proof {
                    assert(self.submissions_of(feed_id@) == empty@);
                    assert(empty@.dom() =~= Set::<Seq<u8>>::empty());
                }
                (0u32, None, Vec::new())
            },
        };
        if count < min_submissions {
            return Err(DispatchError::Module(Error::NotEnoughSubmissions));
        }
        match last {
            Some(m) => {
                let ghost subs = self.submissions_of(feed_id@);
                let feed_value = FeedValue { value, timestamp: now, submission_count: count, confidence: 90 };
                self.feed_values.insert(*feed_id, feed_value);
                match self.data_feeds.remove(feed_id) {
                    Some(feed) => {
                        let mut feed = feed;
                        feed.last_update = Some(now);
                        self.data_feeds.insert(*feed_id, feed);
                    },
                    None => {},
                }
                self.current_submissions.remove(feed_id);
                self.events.push(Event::FeedUpdated(*feed_id, now, count));
                proof {
                    assert(self.current_submissions@.remove(feed_id@) =~= old(self).current_submissions@.remove(feed_id@));
                    assert(self.data_feeds@.dom() =~= old(self).data_feeds@.dom());
                    assert(self.data_feeds@.remove(feed_id@) =~= old(self).data_feeds@.remove(feed_id@));
                    assert(self.feed_values@.remove(feed_id@) =~= old(self).feed_values@.remove(feed_id@));
                    assert(self.submissions_of(feed_id@) =~= Map::<Seq<u8>, DataSubmission<AccountId, BlockNumber>>::empty());
                    assert(walked_last(subs, m@) && self.feed_values@[feed_id@].value@ == subs[m@].data@);
                }
                Ok(())
            },
            None => Ok(()),
        }
    }

    /// Submit data to a feed (signed origin) at block `now`. The feed must exist and be active,
    /// the data fit the pallet's limit, the signer be an authorized submitter and the signature
    /// non-empty. The submission replaces the signer's earlier one in the current round; once the
    /// round holds the feed's minimum of submissions it is aggregated (`update_feed_value`).
    pub fn submit_data(
        &mut self,
        origin: Origin,
        feed_id: FeedId,
        data: Vec<u8>,
        signature: Vec<u8>,
        now: BlockNumber,
    ) -> (result: Result<(), DispatchError<Error>>)
        ensures
            !(origin is Signed) ==> result == Err::<(), DispatchError<Error>>(DispatchError::BadOrigin),
            origin is Signed && !old(self).feeds().contains_key(feed_id@)
                ==> result == Err::<(), DispatchError<Error>>(DispatchError::Module(Error::FeedNotFound)),
            origin is Signed && old(self).feeds().contains_key(feed_id@) && !old(self).feeds()[feed_id@].active
                ==> result == Err::<(), DispatchError<Error>>(DispatchError::Module(Error::FeedInactive)),
            origin is Signed && old(self).feeds().contains_key(feed_id@) && old(self).feeds()[feed_id@].active
                && data@.len() > old(self).max_data()
                ==> result == Err::<(), DispatchError<Error>>(DispatchError::Module(Error::DataTooLarge)),
            origin matches Origin::Signed(who) && old(self).feeds().contains_key(feed_id@) && old(self).feeds()[feed_id@].active
                && data@.len() <= old(self).max_data()
                && !(old(self).submitters_of(feed_id@).contains_key(who@) && old(self).submitters_of(feed_id@)[who@])
                ==> result == Err::<(), DispatchError<Error>>(DispatchError::Module(Error::UnauthorizedSubmitter)),
            origin matches Origin::Signed(who) && old(self).feeds().contains_key(feed_id@) && old(self).feeds()[feed_id@].active
                && data@.len() <= old(self).max_data()
                && old(self).submitters_of(feed_id@).contains_key(who@) && old(self).submitters_of(feed_id@)[who@]
                && signature@.len() == 0
                ==> result == Err::<(), DispatchError<Error>>(DispatchError::Module(Error::InvalidSignature)),
            result is Ok <==> (origin matches Origin::Signed(who) && old(self).feeds().contains_key(feed_id@)
                && old(self).feeds()[feed_id@].active && data@.len() <= old(self).max_data()
                && old(self).submitters_of(feed_id@).contains_key(who@) && old(self).submitters_of(feed_id@)[who@]
                && signature@.len() > 0),
            result is Err ==> final(self).unchanged(old(self)),
            result is Ok ==> (origin matches Origin::Signed(who) && {
                let submission = DataSubmission { submitter: who, feed_id, timestamp: now, data, signature };
                let subs = old(self).submissions_of(feed_id@).insert(who@, submission);
                let count = subs.dom().len() as u32;
                &&& final(self).round_changed_only(old(self), feed_id@)
                &&& if count < old(self).feeds()[feed_id@].min_submissions {
                    &&& final(self).submissions_of(feed_id@) == subs
                    &&& final(self).feeds() == old(self).feeds()
                    &&& final(self).values() == old(self).values()
                    &&& final(self).events() == old(self).events().push(Event::DataSubmitted(feed_id, who, now))
                } else {
                    &&& final(self).submissions_of(feed_id@) == Map::<Seq<u8>, DataSubmission<AccountId, BlockNumber>>::empty()
                    &&& final(self).values().dom() == old(self).values().dom().insert(feed_id@)
                    &&& aggregated(final(self).values()[feed_id@], subs, now)
                    &&& final(self).feeds().dom() == old(self).feeds().dom()
                    &&& feed_updated(final(self).feeds()[feed_id@], old(self).feeds()[feed_id@], now)
                    &&& final(self).events() == old(self).events().push(Event::DataSubmitted(feed_id, who, now))
                        .push(Event::FeedUpdated(feed_id, now, count))
                }
            }),
    {
        let submitter = ensure_signed(origin)?;
        let min_submissions = match self.data_feeds.get(&feed_id) {
            Some(feed) => {
                if !feed.active {
                    return Err(DispatchError::Module(Error::FeedInactive));
                }
                feed.min_submissions
            },
            None => { return Err(DispatchError::Module(Error::FeedNotFound)); },
        };
        if data.len() > self.max_data_size as usize {
            return Err(DispatchError::Module(Error::DataTooLarge));
        }
        if !self.feed_submitters(&feed_id, &submitter) {
            return Err(DispatchError::Module(Error::UnauthorizedSubmitter));
        }
        if signature.len() == 0 {
            return Err(DispatchError::Module(Error::InvalidSignature));
        }
        let submission = DataSubmission { submitter, feed_id, timestamp: now, data, signature };
        nested_insert(&mut self.current_submissions, &feed_id, submitter, submission);
        self.events.push(Event::DataSubmitted(feed_id, submitter, now));
        let ghost mid = *self;
        proof {
            assert(self.current_submissions@.remove(feed_id@) =~= old(self).current_submissions@.remove(feed_id@));
        }
        let count = match self.current_submissions.get(&feed_id) {
            Some(subs) => {
                let n = subs.len();
                proof {
                    assert(subs@.contains_key(submitter@));
                    assert(subs@.dom().remove(submitter@).len() == n - 1);
                }
                n as u32
            },
            None => 0,
        };
        if count >= min_submissions {
            let updated = self.update_feed_value(&feed_id, now);
            proof {
                assert(updated is Ok);
                assert(mid.submissions_of(feed_id@).dom().len() > 0);
            }
        }
        Ok(())
    }
}

impl Oracle {
    /// Nothing changed: every limit, stored value and event agrees.
    pub proof fn lemma_unchanged(&self, other: &Oracle)
        requires
            self.unchanged(other),
        ensures
            self.max_description() == other.max_description(),
            self.max_data() == other.max_data(),
            self.feeds() == other.feeds(),
            self.values() == other.values(),
            forall|f: Seq<u8>| #![trigger self.submitters_of(f)] #![trigger other.submitters_of(f)]
                self.submitters_of(f) == other.submitters_of(f),
            forall|f: Seq<u8>| #![trigger self.reputations_of(f)] #![trigger other.reputations_of(f)]
                self.reputations_of(f) == other.reputations_of(f),
            forall|f: Seq<u8>| #![trigger self.submissions_of(f)] #![trigger other.submissions_of(f)]
                self.submissions_of(f) == other.submissions_of(f),
            self.events() == other.events(),
    {
    }

    /// Only the submitter records of `feed` changed (and the events): every other stored value
    /// agrees.
    pub proof fn lemma_submitters_changed_only(&self, other: &Oracle, feed: Seq<u8>)
        requires
            self.submitters_changed_only(other, feed),
        ensures
            self.max_description() == other.max_description(),
            self.max_data() == other.max_data(),
            self.values() == other.values(),
            forall|f: Seq<u8>| #![trigger self.submissions_of(f)] #![trigger other.submissions_of(f)]
                self.submissions_of(f) == other.submissions_of(f),
            forall|f: Seq<u8>| #![trigger self.submitters_of(f)] #![trigger other.submitters_of(f)]
                f != feed ==> self.submitters_of(f) == other.submitters_of(f),
            forall|f: Seq<u8>| #![trigger self.reputations_of(f)] #![trigger other.reputations_of(f)]
                f != feed ==> self.reputations_of(f) == other.reputations_of(f),
    {
        assert forall|f: Seq<u8>| f != feed implies self.submitters_of(f) == other.submitters_of(f) by {
            lemma_inner_removed(self.feed_submitters@, other.feed_submitters@, feed, f);
        }
        assert forall|f: Seq<u8>| f != feed implies self.reputations_of(f) == other.reputations_of(f) by {
            lemma_inner_removed(self.submitter_reputations@, other.submitter_reputations@, feed, f);
        }
    }

    /// Only the current round of `feed`, its record and its value changed (and the events):
    /// every other stored value agrees.
    pub proof fn lemma_round_changed_only(&self, other: &Oracle, feed: Seq<u8>)
        requires
            self.round_changed_only(other, feed),
        ensures
            self.max_description() == other.max_description(),
            self.max_data() == other.max_data(),
            forall|f: Seq<u8>| #![trigger self.submitters_of(f)] #![trigger other.submitters_of(f)]
                self.submitters_of(f) == other.submitters_of(f),
            forall|f: Seq<u8>| #![trigger self.reputations_of(f)] #![trigger other.reputations_of(f)]
                self.reputations_of(f) == other.reputations_of(f),
            forall|f: Seq<u8>| #![trigger self.submissions_of(f)] #![trigger other.submissions_of(f)]
                f != feed ==> self.submissions_of(f) == other.submissions_of(f),
            self.feeds().remove(feed) == other.feeds().remove(feed),
            self.values().remove(feed) == other.values().remove(feed),
    {
        assert forall|f: Seq<u8>| f != feed implies self.submissions_of(f) == other.submissions_of(f) by {
            lemma_inner_removed(self.current_submissions@, other.current_submissions@, feed, f);
        }
    }
}

} // verus!
