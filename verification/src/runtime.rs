//! The parts of the runtime that every pallet reads: who signed a call, and how
//! a dispatch fails.
use vstd::prelude::*;

verus! {

/// Accounts are identified by a 64-bit number.
pub type AccountId = u64;

/// Block heights.
pub type BlockNumber = u64;

/// Where a call comes from.
#[derive(Clone, Copy, PartialEq, Eq, Debug, Structural)]
pub enum Origin {
    /// The root (sudo) origin.
    Root,
    /// A call signed by an account.
    Signed(AccountId),
    /// An unsigned call (an inherent or an unsigned transaction).
    Unsigned,
}

/// How a dispatchable call fails: either its origin is not a signed account, or
/// the pallet refused it with one of its own errors.
#[derive(PartialEq, Eq, Debug, Structural)]
pub enum DispatchError<E> {
    BadOrigin,
    Module(E),
}

/// The account that signed a call, if any.
pub open spec fn signer(origin: Origin) -> Option<AccountId> {
    match origin {
        Origin::Signed(who) => Some(who),
        _ => None,
    }
}

/// The signer of the call, or `BadOrigin` for a root or unsigned origin.
pub fn ensure_signed<E>(origin: Origin) -> (r: Result<AccountId, DispatchError<E>>)
    ensures
        match signer(origin) {
            Some(who) => r == Ok::<AccountId, DispatchError<E>>(who),
            None => r == Err::<AccountId, DispatchError<E>>(DispatchError::BadOrigin),
        },
{
    match origin {
        Origin::Signed(who) => Ok(who),
        _ => Err(DispatchError::BadOrigin),
    }
}

} // verus!
