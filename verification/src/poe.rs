//! The claim registry: who claimed which fingerprint, and at what height.
//!
//! A fingerprint is an opaque sequence of at most `MAX_CLAIM_LENGTH` bytes.
//! It has at most one claim at a time. Every call checks the length of the
//! fingerprint first, then whether a claim exists, then who owns it.

use crate::bounded::try_bound;
use crate::system::{ensure_signed, AccountId, BlockNumber, ErrorKind, Origin};
use crate::table::Table;
use vstd::prelude::*;

verus! {

/// Every live claim: the owner of each claimed fingerprint and the height at
/// which the claim was last written.
pub type Claims = Map<Seq<u8>, (AccountId, BlockNumber)>;

/// What a call that went through reports.
#[derive(PartialEq, Eq, Debug)]
pub enum Event {
    /// An account claimed a fingerprint.
    ClaimCreated(AccountId, Vec<u8>),
    /// An account gave up its claim to a fingerprint.
    ClaimRevoked(AccountId, Vec<u8>),
    /// The first account passed its claim to a fingerprint on to the second.
    ClaimTransfered(AccountId, AccountId, Vec<u8>),
}

/// Why a call was rejected. A rejected call changes nothing.
#[derive(Clone, Copy, PartialEq, Eq, Debug, Structural)]
pub enum Error {
    /// The fingerprint is already claimed.
    ProofAlreadyExist,
    /// The fingerprint is longer than the registry accepts.
    ClaimTooLong,
    /// The fingerprint is not claimed.
    ClaimNotExist,
    /// The caller does not own the claim.
    NotClaimOwner,
    /// The call did not come from an authenticated account.
    BadOrigin,
}

impl Error {
    /// The class of the error.
    pub open spec fn spec_kind(self) -> ErrorKind {
        match self {
            Error::ProofAlreadyExist => ErrorKind::Conflict,
            Error::ClaimTooLong => ErrorKind::Validation,
            Error::ClaimNotExist => ErrorKind::NotFound,
            Error::NotClaimOwner => ErrorKind::Authorization,
            Error::BadOrigin => ErrorKind::Authorization,
        }
    }

    /// The class of the error.
    #[verifier::when_used_as_spec(spec_kind)]
    pub fn kind(self) -> (kind: ErrorKind)
        ensures
            kind == self.spec_kind(),
    {
        match self {
            Error::ProofAlreadyExist => ErrorKind::Conflict,
            Error::ClaimTooLong => ErrorKind::Validation,
            Error::ClaimNotExist => ErrorKind::NotFound,
            Error::NotClaimOwner => ErrorKind::Authorization,
            Error::BadOrigin => ErrorKind::Authorization,
        }
    }
}

/// Why claiming `claim` is rejected, if it is.
pub open spec fn create_claim_error(claims: Claims, max_length: u32, claim: Seq<u8>) -> Option<
    Error,
> {
    if claim.len() > max_length {
        Some(Error::ClaimTooLong)
    } else if claims.contains_key(claim) {
        Some(Error::ProofAlreadyExist)
    } else {
        None
    }
}

/// Why `sender` may not dispose of the claim to `claim`, if it may not.
pub open spec fn owner_error(
    claims: Claims,
    max_length: u32,
    sender: AccountId,
    claim: Seq<u8>,
) -> Option<Error> {
    if claim.len() > max_length {
        Some(Error::ClaimTooLong)
    } else if !claims.contains_key(claim) {
        Some(Error::ClaimNotExist)
    } else if claims[claim].0 != sender {
        Some(Error::NotClaimOwner)
    } else {
        None
    }
}

/// Whether `after` and `res` are what a call to claim `claim` at height
/// `block_number` leaves and returns, given the claims `before` it.
pub open spec fn create_claim_outcome(
    before: Claims,
    after: Claims,
    max_length: u32,
    origin: Origin,
    claim: Seq<u8>,
    block_number: BlockNumber,
    res: Result<Event, Error>,
) -> bool {
    match origin.signer() {
        None => res == Err::<Event, Error>(Error::BadOrigin) && after == before,
        Some(sender) => match create_claim_error(before, max_length, claim) {
            Some(e) => res == Err::<Event, Error>(e) && after == before,
            None => {
                &&& res matches Ok(Event::ClaimCreated(who, reported))
                &&& who == sender
                &&& reported@ == claim
                &&& after == before.insert(claim, (sender, block_number))
            },
        },
    }
}

/// Whether `after` and `res` are what a call to give up the claim to `claim`
/// leaves and returns, given the claims `before` it.
pub open spec fn revoke_claim_outcome(
    before: Claims,
    after: Claims,
    max_length: u32,
    origin: Origin,
    claim: Seq<u8>,
    res: Result<Event, Error>,
) -> bool {
    match origin.signer() {
        None => res == Err::<Event, Error>(Error::BadOrigin) && after == before,
        Some(sender) => match owner_error(before, max_length, sender, claim) {
            Some(e) => res == Err::<Event, Error>(e) && after == before,
            None => {
                &&& res matches Ok(Event::ClaimRevoked(who, reported))
                &&& who == sender
                &&& reported@ == claim
                &&& after == before.remove(claim)
            },
        },
    }
}

/// Whether `after` and `res` are what a call to pass the claim to `claim` on
/// to `dest` at height `block_number` leaves and returns, given the claims
/// `before` it.
pub open spec fn transfer_claim_outcome(
    before: Claims,
    after: Claims,
    max_length: u32,
    origin: Origin,
    claim: Seq<u8>,
    dest: AccountId,
    block_number: BlockNumber,
    res: Result<Event, Error>,
) -> bool {
    match origin.signer() {
        None => res == Err::<Event, Error>(Error::BadOrigin) && after == before,
        Some(sender) => match owner_error(before, max_length, sender, claim) {
            Some(e) => res == Err::<Event, Error>(e) && after == before,
            None => {
                &&& res matches Ok(Event::ClaimTransfered(from, to, reported))
                &&& from == sender
                &&& to == dest
                &&& reported@ == claim
                &&& after == before.insert(claim, (dest, block_number))
            },
        },
    }
}

/// No claimed fingerprint is longer than `max_length`.
pub open spec fn claims_bounded(claims: Claims, max_length: u32) -> bool {
    forall|claim: Seq<u8>| #[trigger] claims.contains_key(claim) ==> claim.len() <= max_length
}

/// Claim uniqueness: while a fingerprint is claimed, claiming it again is
/// rejected as a conflict, whoever asks.
pub proof fn law_claimed_conflicts(claims: Claims, max_length: u32, claim: Seq<u8>)
    requires
        claims_bounded(claims, max_length),
        claims.contains_key(claim),
    ensures
        create_claim_error(claims, max_length, claim) == Some(Error::ProofAlreadyExist),
        Error::ProofAlreadyExist.spec_kind() == ErrorKind::Conflict,
{
}

/// Claim uniqueness: a fingerprint that was just claimed cannot be claimed a
/// second time, and its first claim stands.
pub proof fn law_second_claim_conflicts(
    claims: Claims,
    max_length: u32,
    claim: Seq<u8>,
    first: AccountId,
    block_number: BlockNumber,
)
    requires
        create_claim_error(claims, max_length, claim) is None,
    ensures
        create_claim_error(claims.insert(claim, (first, block_number)), max_length, claim) == Some(
            Error::ProofAlreadyExist,
        ),
        claims.insert(claim, (first, block_number))[claim] == (first, block_number),
{
}

/// Claim uniqueness: a claim stays live through every call but its own
/// revocation: other fingerprints being claimed, passed on or given up, and
/// the claim itself being passed on.
pub proof fn law_claim_stays(
    claims: Claims,
    claim: Seq<u8>,
    other: Seq<u8>,
    who: AccountId,
    block_number: BlockNumber,
)
    requires
        claims.contains_key(claim),
    ensures
        claims.insert(other, (who, block_number)).contains_key(claim),
        other != claim ==> claims.remove(other).contains_key(claim),
{
}

/// The claim registry. It accepts fingerprints of at most `MAX_CLAIM_LENGTH`
/// bytes.
pub struct Pallet<const MAX_CLAIM_LENGTH: u32> {
    proofs: Table<(AccountId, BlockNumber)>,
}

impl<const MAX_CLAIM_LENGTH: u32> View for Pallet<MAX_CLAIM_LENGTH> {
    type V = Claims;

    closed spec fn view(&self) -> Claims {
        self.proofs@
    }
}

impl<const MAX_CLAIM_LENGTH: u32> Pallet<MAX_CLAIM_LENGTH> {
    /// The registry's invariant.
    pub closed spec fn wf(&self) -> bool {
        &&& self.proofs.wf()
        &&& claims_bounded(self.proofs@, MAX_CLAIM_LENGTH)
    }

    /// In a well-formed registry no claimed fingerprint is over length.
    pub proof fn lemma_claims_bounded(&self)
        requires
            self.wf(),
        ensures
            claims_bounded(self@, MAX_CLAIM_LENGTH),
    {
    }

    /// A registry without claims.
    pub fn new() -> (pallet: Self)
        ensures
            pallet.wf(),
            pallet@ == Claims::empty(),
    {
        Pallet { proofs: Table::new() }
    }

    /// The owner of the claim to `claim` and the height at which it was last
    /// written, if the fingerprint is claimed.
    pub fn proofs(&self, claim: &Vec<u8>) -> (found: Option<(AccountId, BlockNumber)>)
        requires
            self.wf(),
        ensures
            found == if self@.contains_key(claim@) {
                Some(self@[claim@])
            } else {
                None
            },
    {
        self.proofs.get(claim)
    }

    /// Whether the fingerprint is claimed.
    pub fn contains_key(&self, claim: &Vec<u8>) -> (claimed: bool)
        requires
            self.wf(),
        ensures
            claimed == self@.contains_key(claim@),
    {
        self.proofs.contains_key(claim)
    }

    /// Claims `claim` for the caller at height `block_number`.
    ///
    /// Rejected when the origin is not an account, when the fingerprint is
    /// over length, or when it is already claimed, in that order.
    pub fn create_claim(
        &mut self,
        origin: Origin,
        claim: Vec<u8>,
        block_number: BlockNumber,
    ) -> (res: Result<Event, Error>)
        requires
            old(self).wf(),
        ensures
            final(self).wf(),
            create_claim_outcome(
                old(self)@,
                final(self)@,
                MAX_CLAIM_LENGTH,
                origin,
                claim@,
                block_number,
                res,
            ),
    {
        let sender = match ensure_signed(origin) {
            Ok(sender) => sender,
            Err(_) => {
                return Err(Error::BadOrigin);
            },
        };
        let bounded_claim = match try_bound::<MAX_CLAIM_LENGTH>(claim) {
            Ok(bounded) => bounded,
            Err(_) => {
                return Err(Error::ClaimTooLong);
            },
        };
        if self.proofs.contains_key(&bounded_claim) {
            return Err(Error::ProofAlreadyExist);
        }
        let reported = bounded_claim.clone();
        self.proofs.insert(bounded_claim, (sender, block_number));
        Ok(Event::ClaimCreated(sender, reported))
    }

    /// Gives up the caller's claim to `claim`.
    ///
    /// Rejected when the origin is not an account, when the fingerprint is
    /// over length, when it is not claimed, or when the caller does not own
    /// the claim, in that order.
    pub fn revoke_claim(&mut self, origin: Origin, claim: Vec<u8>) -> (res: Result<Event, Error>)
        requires
            old(self).wf(),
        ensures
            final(self).wf(),
            revoke_claim_outcome(old(self)@, final(self)@, MAX_CLAIM_LENGTH, origin, claim@, res),
    {
        let sender = match ensure_signed(origin) {
            Ok(sender) => sender,
            Err(_) => {
                return Err(Error::BadOrigin);
            },
        };
        let bounded_claim = match try_bound::<MAX_CLAIM_LENGTH>(claim) {
            Ok(bounded) => bounded,
            Err(_) => {
                return Err(Error::ClaimTooLong);
            },
        };
        let (owner, _) = match self.proofs.get(&bounded_claim) {
            Some(proof) => proof,
            None => {
                return Err(Error::ClaimNotExist);
            },
        };
        if owner != sender {
            return Err(Error::NotClaimOwner);
        }
        self.proofs.remove(&bounded_claim);
        Ok(Event::ClaimRevoked(sender, bounded_claim))
    }

    /// Passes the caller's claim to `claim` on to `dest`, as of height
    /// `block_number`.
    ///
    /// Rejected when the origin is not an account, when the fingerprint is
    /// over length, when it is not claimed, or when the caller does not own
    /// the claim, in that order.
    pub fn transfer_claim(
        &mut self,
        origin: Origin,
        claim: Vec<u8>,
        dest: AccountId,
        block_number: BlockNumber,
    ) -> (res: Result<Event, Error>)
        requires
            old(self).wf(),
        ensures
            final(self).wf(),
            transfer_claim_outcome(
                old(self)@,
                final(self)@,
                MAX_CLAIM_LENGTH,
                origin,
                claim@,
                dest,
                block_number,
                res,
            ),
    {
        let sender = match ensure_signed(origin) {
            Ok(sender) => sender,
            Err(_) => {
                return Err(Error::BadOrigin);
            },
        };
        let bounded_claim = match try_bound::<MAX_CLAIM_LENGTH>(claim) {
            Ok(bounded) => bounded,
            Err(_) => {
                return Err(Error::ClaimTooLong);
            },
        };
        let (owner, _) = match self.proofs.get(&bounded_claim) {
            Some(proof) => proof,
            None => {
                return Err(Error::ClaimNotExist);
            },
        };
        if owner != sender {
            return Err(Error::NotClaimOwner);
        }
        let reported = bounded_claim.clone();
        self.proofs.insert(bounded_claim, (dest, block_number));
        Ok(Event::ClaimTransfered(sender, dest, reported))
    }
}

} // verus!
