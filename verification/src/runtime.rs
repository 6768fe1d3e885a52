//! What the runtime hands to every pallet call: who made it, and how a call fails.
use vstd::prelude::*;

verus! {

/// An account: 32 bytes, which are also its SCALE encoding.
pub type AccountId = [u8; 32];

/// A block number.
pub type BlockNumber = u32;

/// A balance.
pub type Balance = u128;

/// The origin of a call.
#[derive(Clone, Copy, Debug, PartialEq, Eq)]
pub enum Origin {
    /// The root (administrative) origin.
    Root,
    /// A call signed by an account.
    Signed(AccountId),
    /// An unsigned call.
    Unsigned,
}

/// Why a call failed.
#[derive(Clone, Copy, Debug, PartialEq, Eq)]
pub enum DispatchError<E> {
    /// The origin is not allowed to make the call.
    BadOrigin,
    /// The currency refused to move or hold the funds.
    Currency,
    /// The pallet's own error.
    Module(E),
}

/// The signer of a signed origin.
pub fn ensure_signed<E>(origin: Origin) -> (result: Result<AccountId, DispatchError<E>>)
    ensures
        match origin {
            Origin::Signed(who) => result == Ok::<AccountId, DispatchError<E>>(who),
            _ => result == Err::<AccountId, DispatchError<E>>(DispatchError::BadOrigin),
        },
{
    match origin {
        Origin::Signed(who) => Ok(who),
        _ => Err(DispatchError::BadOrigin),
    }
}

/// Accept only the root origin.
pub fn ensure_root<E>(origin: Origin) -> (result: Result<(), DispatchError<E>>)
    ensures
        match origin {
            Origin::Root => result is Ok,
            _ => result == Err::<(), DispatchError<E>>(DispatchError::BadOrigin),
        },
{
    match origin {
        Origin::Root => Ok(()),
        _ => Err(DispatchError::BadOrigin),
    }
}

} // verus!
