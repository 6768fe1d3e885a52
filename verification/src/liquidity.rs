//! Quantum-secure liquidity pools: a pool holds two or more assets, issues shares to its
//! creator and carries thrice-nested entropy derived with BLAKE3.
use vstd::prelude::*;
use crate::hashing::{blake3_digest, digest2, digest3};
use crate::keyed_map::{KeyedMap, StorageKey};
use crate::runtime::{AccountId, Balance, DispatchError, Origin, ensure_signed};
use crate::scale::{scale_encode_u32s, scale_u32s};
use crate::weights::Weight;

verus! {

/// The identifier of a pool.
pub type PoolId = u32;

/// The identifier of an asset.
pub type AssetId = u32;

/// Quantum entropy with thrice-nested layers (Fe-Ni-Co).
#[derive(Clone, Copy, Debug, PartialEq, Eq)]
pub struct QuantumEntropy {
    /// Iron layer (outer).
    pub fe_layer: [u8; 32],
    /// Nickel layer (middle).
    pub ni_layer: [u8; 32],
    /// Cobalt layer (inner).
    pub co_layer: [u8; 32],
}

/// A liquidity pool.
#[derive(Debug)]
pub struct Pool<AccountId: StorageKey, Balance> {
    /// Pool creator.
    pub creator: AccountId,
    /// The assets in the pool.
    pub assets: Vec<AssetId>,
    /// The balance of each asset.
    pub balances: Vec<Balance>,
    /// Total liquidity shares issued.
    pub total_shares: Balance,
    /// Liquidity providers and their shares.
    pub shares: KeyedMap<AccountId, Balance>,
    /// Swap fee in basis points (30 is 0.3%).
    pub fee: u16,
    /// Quantum security entropy.
    pub entropy: QuantumEntropy,
}

/// Events of the liquidity pallet.
#[derive(Clone, Debug, PartialEq, Eq)]
pub enum Event {
    /// A new pool was created: creator, pool id, assets.
    PoolCreated(AccountId, PoolId, Vec<AssetId>),
    /// Liquidity was added to a pool: provider, pool id, amounts, shares.
    LiquidityAdded(AccountId, PoolId, Vec<Balance>, Balance),
    /// Liquidity was removed from a pool: provider, pool id, amounts, shares.
    LiquidityRemoved(AccountId, PoolId, Vec<Balance>, Balance),
    /// A swap was executed: trader, pool id, asset in, asset out, amount in, amount out.
    Swapped(AccountId, PoolId, AssetId, AssetId, Balance, Balance),
}

/// Errors of the liquidity pallet.
#[derive(Clone, Copy, Debug, PartialEq, Eq, Structural)]
pub enum Error {
    /// Pool does not exist.
    PoolNotFound,
    /// Asset not found in pool.
    AssetNotInPool,
    /// Insufficient balance.
    InsufficientBalance,
    /// Insufficient liquidity.
    InsufficientLiquidity,
    /// Math overflow.
    MathOverflow,
    /// Pool already exists with these assets.
    PoolAlreadyExists,
    /// Too many assets in pool.
    TooManyAssetsInPool,
    /// Zero liquidity provided.
    ZeroLiquidity,
    /// Zero amount to swap.
    ZeroSwapAmount,
    /// Slippage tolerance exceeded.
    SlippageExceeded,
    /// No shares owned in this pool.
    NoSharesOwned,
    /// Invalid fee percentage.
    InvalidFee,
}

/// Weights of the liquidity calls.
pub trait WeightInfo {
    fn create_pool() -> Weight;
    fn add_liquidity() -> Weight;
    fn remove_liquidity() -> Weight;
    fn swap() -> Weight;
}

/// The entropy layers of a pool: the outer one hashes the creator's account and the encoded
/// asset list, the middle one the outer layer and the account, the inner one both layers and
/// the encoded asset list.
pub open spec fn pool_entropy(account: AccountId, assets: Seq<u32>) -> (Seq<u8>, Seq<u8>, Seq<u8>) {
    let a = scale_u32s(assets);
    let fe = blake3_digest(account@ + a);
    let ni = blake3_digest(fe + account@);
    let co = blake3_digest(fe + ni + a);
    (fe, ni, co)
}

/// Generate the thrice-nested entropy of a pool.
pub fn generate_quantum_entropy(account: &AccountId, assets: &Vec<AssetId>) -> (entropy: QuantumEntropy)
    requires
        assets@.len() <= u32::MAX,
    ensures
        (entropy.fe_layer@, entropy.ni_layer@, entropy.co_layer@) == pool_entropy(*account, assets@),
{
    let account_bytes: &[u8] = account.as_slice();
    let assets_bytes = scale_encode_u32s(assets.as_slice());
    let fe_layer = digest2(account_bytes, assets_bytes.as_slice());
    let ni_layer = digest2(fe_layer.as_slice(), account_bytes);
    let co_layer = digest3(fe_layer.as_slice(), ni_layer.as_slice(), assets_bytes.as_slice());
    QuantumEntropy { fe_layer, ni_layer, co_layer }
}

/// The product of a sequence of amounts.
pub open spec fn product(s: Seq<u128>) -> int
    decreases s.len(),
{
    if s.len() == 0 {
        1
    } else {
        product(s.drop_last()) * s.last()
    }
}

/// No amount is zero.
pub open spec fn all_positive(s: Seq<u128>) -> bool {
    forall|i: int| 0 <= i < s.len() ==> s[i] > 0
}

/// Some prefix without a zero has a product beyond `u128::MAX`.
pub open spec fn prefix_overflows(s: Seq<u128>) -> bool {
    exists|k: int| 0 <= k <= s.len() && all_positive(#[trigger] s.take(k)) && product(s.take(k)) > u128::MAX
}

/// What `calculate_initial_shares` gives: no amounts, or a zero amount, is `ZeroLiquidity`
/// (unless the product overflows before the zero); a product beyond `u128::MAX` is
/// `MathOverflow`; otherwise the product of the amounts.
pub open spec fn initial_shares(s: Seq<u128>) -> Result<u128, Error> {
    if s.len() == 0 {
        Err(Error::ZeroLiquidity)
    } else if prefix_overflows(s) {
        Err(Error::MathOverflow)
    } else if !all_positive(s) {
        Err(Error::ZeroLiquidity)
    } else {
        Ok(product(s) as u128)
    }
}

/// Calculate the initial liquidity shares of a pool: the product of the amounts, each of which
/// must be positive.
pub fn calculate_initial_shares(amounts: &Vec<Balance>) -> (result: Result<Balance, Error>)
    ensures
        result == initial_shares(amounts@),
{
    if amounts.len() == 0 {
        return Err(Error::ZeroLiquidity);
    }
    let mut product_so_far: u128 = 1;
    let mut i: usize = 0;
    while i < amounts.len()
        invariant
            0 <= i <= amounts@.len(),
            amounts@.len() > 0,
            all_positive(amounts@.take(i as int)),
            product_so_far == product(amounts@.take(i as int)),
            forall|k: int| 0 <= k <= i ==> product(#[trigger] amounts@.take(k)) <= u128::MAX,
        decreases amounts@.len() - i,
    {
        let amount = amounts[i];
        proof {
            assert(amounts@.take(i as int + 1).drop_last() =~= amounts@.take(i as int));
        }
        if amount == 0 {
            proof {
                assert forall|k: int| 0 <= k <= amounts@.len() && all_positive(#[trigger] amounts@.take(k))
                    implies product(amounts@.take(k)) <= u128::MAX by {
                    if k > i {
                        assert(amounts@.take(k)[i as int] == 0);
                    }
                }
                assert(!all_positive(amounts@)) by {
                    assert(amounts@[i as int] == 0);
                }
            }
            return Err(Error::ZeroLiquidity);
        }
        match product_so_far.checked_mul(amount) {
            Some(p) => {
                product_so_far = p;
            },
            None => {
                proof {
                    assert(all_positive(amounts@.take(i as int + 1)));
                    assert(product(amounts@.take(i as int + 1)) > u128::MAX);
                    assert(prefix_overflows(amounts@));
                }
                return Err(Error::MathOverflow);
            },
        }
        i = i + 1;
    }
    proof {
        assert(amounts@.take(amounts@.len() as int) =~= amounts@);
        assert forall|k: int| 0 <= k <= amounts@.len() && all_positive(#[trigger] amounts@.take(k))
            implies product(amounts@.take(k)) <= u128::MAX by {}
    }
    Ok(product_so_far)
}

/// The pool that `create_pool` stores.
pub open spec fn new_pool(
    pool: Pool<AccountId, Balance>,
    creator: AccountId,
    assets: Seq<AssetId>,
    amounts: Seq<Balance>,
    shares: Balance,
    fee: u16,
) -> bool {
    &&& pool.creator == creator
    &&& pool.assets@ == assets
    &&& pool.balances@ == amounts
    &&& pool.total_shares == shares
    &&& pool.shares@ == map![creator@ => shares]
    &&& pool.fee == fee
    &&& (pool.entropy.fe_layer@, pool.entropy.ni_layer@, pool.entropy.co_layer@) == pool_entropy(creator, assets)
}

/// Whether `create_pool` accepts its arguments before it reserves any funds, and the error it
/// gives where it does not.
pub open spec fn pool_check(assets: Seq<AssetId>, amounts: Seq<Balance>, fee: u16, max_assets: u32) -> Result<u128, Error> {
    if assets.len() < 2 {
        Err(Error::InsufficientLiquidity)
    } else if assets.len() > max_assets {
        Err(Error::TooManyAssetsInPool)
    } else if assets.len() != amounts.len() {
        Err(Error::InsufficientLiquidity)
    } else if fee > 10000 {
        Err(Error::InvalidFee)
    } else {
        initial_shares(amounts)
    }
}

/// The storage of the liquidity pallet.
pub struct Liquidity {
    minimum_liquidity: Balance,
    max_assets_in_pool: u32,
    next_pool_id: PoolId,
    pools: KeyedMap<PoolId, Pool<AccountId, Balance>>,
    events: Vec<Event>,
}

impl Liquidity {
    /// The most assets a pool may hold.
    pub closed spec fn max_assets(&self) -> u32 {
        self.max_assets_in_pool
    }

    /// The id the next pool gets.
    pub closed spec fn next_id(&self) -> PoolId {
        self.next_pool_id
    }

    /// The pools, by id.
    pub closed spec fn pool_map(&self) -> Map<PoolId, Pool<AccountId, Balance>> {
        self.pools@
    }

    /// The events emitted so far.
    pub closed spec fn events(&self) -> Seq<Event> {
        self.events@
    }

    /// Nothing at all has changed.
    pub closed spec fn unchanged(&self, other: &Liquidity) -> bool {
        &&& self.minimum_liquidity == other.minimum_liquidity
        &&& self.max_assets_in_pool == other.max_assets_in_pool
        &&& self.next_pool_id == other.next_pool_id
        &&& self.pools@ == other.pools@
        &&& self.events@ == other.events@
    }

    /// Empty storage with the given limits.
    pub fn new(minimum_liquidity: Balance, max_assets_in_pool: u32) -> (pallet: Liquidity)
        ensures
            pallet.max_assets() == max_assets_in_pool,
            pallet.next_id() == 0,
            pallet.pool_map() == Map::<PoolId, Pool<AccountId, Balance>>::empty(),
            pallet.events() == Seq::<Event>::empty(),
    {
        let pallet = Liquidity { minimum_liquidity, max_assets_in_pool, next_pool_id: 0, pools: KeyedMap::new(), events: Vec::new() };
        assert(pallet.events@ =~= Seq::<Event>::empty());
        pallet
    }

    /// The id the next pool gets.
    pub fn next_pool_id(&self) -> (id: PoolId)
        ensures
            id == self.next_id(),
    {
        self.next_pool_id
    }

    /// A pool.
    pub fn pools(&self, id: PoolId) -> (pool: Option<&Pool<AccountId, Balance>>)
        ensures
            match pool {
                Some(p) => self.pool_map().contains_key(id) && *p == self.pool_map()[id],
                None => !self.pool_map().contains_key(id),
            },
    {
        self.pools.get(&id)
    }

    /// The events emitted so far.
    pub fn event_log(&self) -> (events: &[Event])
        ensures
            events@ == self.events(),
    {
        self.events.as_slice()
    }

    /// Create a pool of `assets` with `initial_amounts` (signed origin). The pool needs at
    /// least two assets and at most the pallet's limit, one amount per asset, a fee of at most
    /// 100% and positive amounts whose product fits a balance; that product is the creator's
    /// share. `funds_reserved` is whether the currency reserved the amounts from the creator.
    pub fn create_pool(
        &mut self,
        origin: Origin,
        assets: Vec<AssetId>,
        initial_amounts: Vec<Balance>,
        fee: u16,
        funds_reserved: bool,
    ) -> (result: Result<(), DispatchError<Error>>)
        ensures
            !(origin is Signed) ==> result == Err::<(), DispatchError<Error>>(DispatchError::BadOrigin),
            origin is Signed && pool_check(assets@, initial_amounts@, fee, old(self).max_assets()) is Err
                ==> result == Err::<(), DispatchError<Error>>(DispatchError::Module(
                    pool_check(assets@, initial_amounts@, fee, old(self).max_assets())->Err_0)),
            origin is Signed && pool_check(assets@, initial_amounts@, fee, old(self).max_assets()) is Ok && !funds_reserved
                ==> result == Err::<(), DispatchError<Error>>(DispatchError::Currency),
            origin is Signed && pool_check(assets@, initial_amounts@, fee, old(self).max_assets()) is Ok && funds_reserved
                && old(self).next_id() == u32::MAX
                ==> result == Err::<(), DispatchError<Error>>(DispatchError::Module(Error::MathOverflow)),
            result is Ok <==> (origin is Signed && pool_check(assets@, initial_amounts@, fee, old(self).max_assets()) is Ok
                && funds_reserved && old(self).next_id() < u32::MAX),
            result is Err ==> final(self).unchanged(old(self)),
            result is Ok ==> (origin matches Origin::Signed(who) && {
                let id = old(self).next_id();
                &&& final(self).pool_map().dom() == old(self).pool_map().dom().insert(id)
                &&& final(self).pool_map().remove(id) == old(self).pool_map().remove(id)
                &&& new_pool(final(self).pool_map()[id], who, assets@, initial_amounts@,
                    pool_check(assets@, initial_amounts@, fee, old(self).max_assets())->Ok_0, fee)
                &&& final(self).next_id() == id + 1
                &&& final(self).max_assets() == old(self).max_assets()
                &&& final(self).events().drop_last() == old(self).events()
                &&& final(self).events().len() == old(self).events().len() + 1
                &&& final(self).events().last() matches Event::PoolCreated(c, i, a) && c == who && i == id && a@ == assets@
            }),
    {
        let creator = ensure_signed(origin)?;
        if assets.len() < 2 {
            return Err(DispatchError::Module(Error::InsufficientLiquidity));
        }
        if assets.len() > self.max_assets_in_pool as usize {
            return Err(DispatchError::Module(Error::TooManyAssetsInPool));
        }
        if assets.len() != initial_amounts.len() {
            return Err(DispatchError::Module(Error::InsufficientLiquidity));
        }
        if fee > 10000 {
            return Err(DispatchError::Module(Error::InvalidFee));
        }
        let entropy = generate_quantum_entropy(&creator, &assets);
        let pool_id = self.next_pool_id;
        let total_shares = match calculate_initial_shares(&initial_amounts) {
            Ok(s) => s,
            Err(e) => { return Err(DispatchError::Module(e)); },
        };
        if !funds_reserved {
            return Err(DispatchError::Currency);
        }
        if pool_id == u32::MAX {
            return Err(DispatchError::Module(Error::MathOverflow));
        }
        let mut shares = KeyedMap::new();
        shares.insert(creator, total_shares);
        let event_assets = assets.clone();
        assert(event_assets@ =~= assets@);
        let pool = Pool {
            creator,
            assets,
            balances: initial_amounts,
            total_shares,
            shares,
            fee,
            entropy,
        };
        proof {
            assert(pool.shares@ =~= map![creator@ => total_shares]);
        }
        self.pools.insert(pool_id, pool);
        self.next_pool_id = pool_id + 1;
        self.events.push(Event::PoolCreated(creator, pool_id, event_assets));
        proof {
            assert(self.pools@.dom() =~= old(self).pools@.dom().insert(pool_id));
            assert(self.pools@.remove(pool_id) =~= old(self).pools@.remove(pool_id));
            assert(self.events@.drop_last() =~= old(self).events@);
        }
        Ok(())
    }
}

impl Liquidity {
    /// Nothing changed: every limit, counter, pool and event agrees.
    pub proof fn lemma_unchanged(&self, other: &Liquidity)
        requires
            self.unchanged(other),
        ensures
            self.max_assets() == other.max_assets(),
            self.next_id() == other.next_id(),
            self.pool_map() == other.pool_map(),
            self.events() == other.events(),
    {
    }
}

} // verus!
