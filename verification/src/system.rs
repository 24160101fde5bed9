//! Identities, heights and call origins shared by every registry.

use vstd::prelude::*;

verus! {

/// Identifies an authorized actor.
pub type AccountId = u64;

/// A block height.
pub type BlockNumber = u64;

/// Where a call comes from, as established before it reaches a registry.
#[derive(Clone, Copy, PartialEq, Eq, Debug, Structural)]
pub enum Origin {
    /// The system itself.
    Root,
    /// An authenticated account.
    Signed(AccountId),
    /// Nobody in particular: the call carries no identity.
    Unsigned,
}

/// The call did not come from an authenticated account.
#[derive(Clone, Copy, PartialEq, Eq, Debug, Structural)]
pub struct BadOrigin;

/// The classes of rejection.
#[derive(Clone, Copy, PartialEq, Eq, Debug, Structural)]
pub enum ErrorKind {
    /// The request is malformed: a fingerprint is over length.
    Validation,
    /// What the request refers to does not exist.
    NotFound,
    /// The caller is not entitled to what it asks for.
    Authorization,
    /// A bound would be exceeded: an account is at capacity, or every
    /// identifier has been handed out.
    Capacity,
    /// The funds for the request are not there, or cannot be moved.
    Funds,
    /// The request contradicts what is already there.
    Conflict,
    /// The tables contradict each other: a fault, not a rejected request.
    InvariantViolation,
}

impl Origin {
    /// The origin of a call made by `who`.
    pub fn signed(who: AccountId) -> (origin: Origin)
        ensures
            origin == Origin::Signed(who),
    {
        Origin::Signed(who)
    }

    /// The origin of a call made by the system.
    pub fn root() -> (origin: Origin)
        ensures
            origin == Origin::Root,
    {
        Origin::Root
    }

    /// The origin of a call that carries no identity.
    pub fn unsigned() -> (origin: Origin)
        ensures
            origin == Origin::Unsigned,
    {
        Origin::Unsigned
    }

    /// The account behind the origin, if it is an authenticated account.
    pub open spec fn signer(self) -> Option<AccountId> {
        match self {
            Origin::Signed(who) => Some(who),
            _ => None,
        }
    }
}

/// Yields the account that made the call, and rejects every origin that is
/// not an authenticated account.
pub fn ensure_signed(origin: Origin) -> (res: Result<AccountId, BadOrigin>)
    ensures
        res == match origin.signer() {
            Some(who) => Ok::<AccountId, BadOrigin>(who),
            None => Err::<AccountId, BadOrigin>(BadOrigin),
        },
{
    match origin {
        Origin::Signed(who) => Ok(who),
        _ => Err(BadOrigin),
    }
}

} // verus!
