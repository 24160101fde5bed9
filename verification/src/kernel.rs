//! The ledger kernel: one state, one call at a time.
//!
//! The kernel owns the claim registry and the kitty registry. It takes a
//! call together with the origin it comes from and the context it is applied
//! in, hands it to the registry it is meant for, and returns either the
//! events of the call or the reason for its rejection. A rejected call
//! leaves every table as it was.

use crate::kitties;
use crate::kitties::model::KittyIndex;
use crate::ledger::{no_accounts, AccountData, Balance};
use crate::poe;
use crate::poe::Claims;
use crate::randomness::Seed;
use crate::system::{AccountId, BlockNumber, ErrorKind, Origin};
use vstd::prelude::*;

verus! {

/// What a call is applied in: the current height, the randomness seed, and
/// the index of the call among those applied so far.
#[derive(Clone, Copy, PartialEq, Eq, Debug)]
pub struct Context {
    pub block_number: BlockNumber,
    pub random_seed: Seed,
    pub extrinsic_index: Option<u32>,
}

/// A request to change the state.
#[derive(PartialEq, Eq, Debug)]
pub enum Call {
    /// Claim a fingerprint.
    CreateClaim { claim: Vec<u8> },
    /// Give up the claim to a fingerprint.
    RevokeClaim { claim: Vec<u8> },
    /// Pass the claim to a fingerprint on to another account.
    TransferClaim { claim: Vec<u8>, dest: AccountId },
    /// Create a kitty.
    Create,
    /// Breed two kitties.
    Breed { kitty_id_1: KittyIndex, kitty_id_2: KittyIndex },
    /// Transfer a kitty to another account.
    Transfer { kitty_id: KittyIndex, who: AccountId },
    /// List a kitty for sale, or take it off the list.
    Sell { kitty_id: KittyIndex, price: Option<Balance> },
    /// Buy a kitty that is for sale.
    Buy { kitty_id: KittyIndex },
}

/// What a call that went through reports.
#[derive(PartialEq, Eq, Debug)]
pub enum Event {
    /// An event of the claim registry.
    Poe(poe::Event),
    /// An event of the kitty registry.
    Kitties(kitties::model::Event),
}

/// Why a call was rejected.
#[derive(Clone, Copy, PartialEq, Eq, Debug, Structural)]
pub enum Error {
    /// The claim registry rejected the call.
    Poe(poe::Error),
    /// The kitty registry rejected the call.
    Kitties(kitties::model::Error),
}

impl Error {
    /// The class of the error.
    pub open spec fn spec_kind(self) -> ErrorKind {
        match self {
            Error::Poe(e) => e.spec_kind(),
            Error::Kitties(e) => e.spec_kind(),
        }
    }

    /// The class of the error.
    #[verifier::when_used_as_spec(spec_kind)]
    pub fn kind(self) -> (kind: ErrorKind)
        ensures
            kind == self.spec_kind(),
    {
        match self {
            Error::Poe(e) => e.kind(),
            Error::Kitties(e) => e.kind(),
        }
    }
}

/// Every table of the kernel.
#[verifier::ext_equal]
pub struct State {
    /// The live claims.
    pub claims: Claims,
    /// The tables of the kitty registry.
    pub kitties: kitties::model::State,
}

/// Whether `res` is the result `inner` of the claim registry, as the kernel
/// reports it: the one event of a call that went through, or the rejection.
pub open spec fn reports_poe(
    res: Result<Vec<Event>, Error>,
    inner: Result<poe::Event, poe::Error>,
) -> bool {
    match inner {
        Ok(event) => res matches Ok(events) && events@ == seq![Event::Poe(event)],
        Err(e) => res == Err::<Vec<Event>, Error>(Error::Poe(e)),
    }
}

/// Whether `res` is the result `inner` of the kitty registry, as the kernel
/// reports it: the one event of a call that went through, or the rejection.
pub open spec fn reports_kitties(
    res: Result<Vec<Event>, Error>,
    inner: Result<kitties::model::Event, kitties::model::Error>,
) -> bool {
    match inner {
        Ok(event) => res matches Ok(events) && events@ == seq![Event::Kitties(event)],
        Err(e) => res == Err::<Vec<Event>, Error>(Error::Kitties(e)),
    }
}

impl State {
    /// Whether `after` and `res` are what applying `call` leaves and
    /// returns, given the tables before it: the call goes to its registry,
    /// and the other registry stays as it was.
    pub open spec fn apply_outcome(
        self,
        after: State,
        max_claim_length: u32,
        max_owned: u32,
        deposit: Balance,
        minimum: Balance,
        context: Context,
        origin: Origin,
        call: Call,
        res: Result<Vec<Event>, Error>,
    ) -> bool {
        match call {
            Call::CreateClaim { claim } => {
                &&& after.kitties == self.kitties
                &&& exists|inner: Result<poe::Event, poe::Error>|
                    #![trigger reports_poe(res, inner)]
                    reports_poe(res, inner) && poe::create_claim_outcome(
                        self.claims,
                        after.claims,
                        max_claim_length,
                        origin,
                        claim@,
                        context.block_number,
                        inner,
                    )
            },
            Call::RevokeClaim { claim } => {
                &&& after.kitties == self.kitties
                &&& exists|inner: Result<poe::Event, poe::Error>|
                    #![trigger reports_poe(res, inner)]
                    reports_poe(res, inner) && poe::revoke_claim_outcome(
                        self.claims,
                        after.claims,
                        max_claim_length,
                        origin,
                        claim@,
                        inner,
                    )
            },
            Call::TransferClaim { claim, dest } => {
                &&& after.kitties == self.kitties
                &&& exists|inner: Result<poe::Event, poe::Error>|
                    #![trigger reports_poe(res, inner)]
                    reports_poe(res, inner) && poe::transfer_claim_outcome(
                        self.claims,
                        after.claims,
                        max_claim_length,
                        origin,
                        claim@,
                        dest,
                        context.block_number,
                        inner,
                    )
            },
            Call::Create => {
                &&& after.claims == self.claims
                &&& exists|inner: Result<kitties::model::Event, kitties::model::Error>|
                    #![trigger reports_kitties(res, inner)]
                    reports_kitties(res, inner) && self.kitties.create_outcome(
                        after.kitties,
                        deposit,
                        max_owned,
                        origin,
                        context.random_seed@,
                        context.extrinsic_index,
                        inner,
                    )
            },
            Call::Breed { kitty_id_1, kitty_id_2 } => {
                &&& after.claims == self.claims
                &&& exists|inner: Result<kitties::model::Event, kitties::model::Error>|
                    #![trigger reports_kitties(res, inner)]
                    reports_kitties(res, inner) && self.kitties.breed_outcome(
                        after.kitties,
                        deposit,
                        max_owned,
                        origin,
                        kitty_id_1,
                        kitty_id_2,
                        context.random_seed@,
                        context.extrinsic_index,
                        inner,
                    )
            },
            Call::Transfer { kitty_id, who } => {
                &&& after.claims == self.claims
                &&& exists|inner: Result<kitties::model::Event, kitties::model::Error>|
                    #![trigger reports_kitties(res, inner)]
                    reports_kitties(res, inner) && self.kitties.transfer_outcome(
                        after.kitties,
                        deposit,
                        max_owned,
                        origin,
                        kitty_id,
                        who,
                        inner,
                    )
            },
            Call::Sell { kitty_id, price } => {
                &&& after.claims == self.claims
                &&& exists|inner: Result<kitties::model::Event, kitties::model::Error>|
                    #![trigger reports_kitties(res, inner)]
                    reports_kitties(res, inner) && self.kitties.sell_outcome(
                        after.kitties,
                        origin,
                        kitty_id,
                        price,
                        inner,
                    )
            },
            Call::Buy { kitty_id } => {
                &&& after.claims == self.claims
                &&& exists|inner: Result<kitties::model::Event, kitties::model::Error>|
                    #![trigger reports_kitties(res, inner)]
                    reports_kitties(res, inner) && self.kitties.buy_outcome(
                        after.kitties,
                        deposit,
                        max_owned,
                        minimum,
                        origin,
                        kitty_id,
                        inner,
                    )
            },
        }
    }
}

/// The ledger kernel. It accepts fingerprints of at most `MAX_CLAIM_LENGTH`
/// bytes and lets no account own more than `MAX_OWNED_ALLOWED` kitties.
pub struct LedgerKernel<const MAX_CLAIM_LENGTH: u32, const MAX_OWNED_ALLOWED: u32> {
    poe: poe::Pallet<MAX_CLAIM_LENGTH>,
    kitties: kitties::Pallet<MAX_OWNED_ALLOWED>,
}

impl<const MAX_CLAIM_LENGTH: u32, const MAX_OWNED_ALLOWED: u32> View for LedgerKernel<
    MAX_CLAIM_LENGTH,
    MAX_OWNED_ALLOWED,
> {
    type V = State;

    closed spec fn view(&self) -> State {
        State { claims: self.poe@, kitties: self.kitties@ }
    }
}

/// The events of a call to the claim registry, or its rejection.
fn report_poe(inner: Result<poe::Event, poe::Error>) -> (res: Result<Vec<Event>, Error>)
    ensures
        reports_poe(res, inner),
{
    match inner {
        Ok(event) => {
            let mut events = Vec::new();
            events.push(Event::Poe(event));
            assert(events@ =~= seq![Event::Poe(event)]);
            Ok(events)
        },
        Err(e) => Err(Error::Poe(e)),
    }
}

/// The events of a call to the kitty registry, or its rejection.
fn report_kitties(inner: Result<kitties::model::Event, kitties::model::Error>) -> (res: Result<
    Vec<Event>,
    Error,
>)
    ensures
        reports_kitties(res, inner),
{
    match inner {
        Ok(event) => {
            let mut events = Vec::new();
            events.push(Event::Kitties(event));
            assert(events@ =~= seq![Event::Kitties(event)]);
            Ok(events)
        },
        Err(e) => Err(Error::Kitties(e)),
    }
}

impl<const MAX_CLAIM_LENGTH: u32, const MAX_OWNED_ALLOWED: u32> LedgerKernel<
    MAX_CLAIM_LENGTH,
    MAX_OWNED_ALLOWED,
> {
    /// The deposit held in escrow for every kitty.
    pub closed spec fn deposit(&self) -> Balance {
        self.kitties.deposit()
    }

    /// The least total an account may be left with by a payment.
    pub closed spec fn minimum(&self) -> Balance {
        self.kitties.minimum()
    }

    /// The kernel's invariant: both registries are well formed.
    pub closed spec fn wf(&self) -> bool {
        self.poe.wf() && self.kitties.wf()
    }

    /// The tables of a well-formed kernel are consistent: no claimed
    /// fingerprint is over length, kitty identifiers are dense, every kitty
    /// has exactly one owner, no account is over capacity, and every account
    /// has one deposit in escrow per kitty.
    pub proof fn lemma_consistent(&self)
        requires
            self.wf(),
        ensures
            poe::claims_bounded(self@.claims, MAX_CLAIM_LENGTH),
            self@.kitties.consistent(self.deposit(), MAX_OWNED_ALLOWED),
    {
        self.poe.lemma_claims_bounded();
        self.kitties.lemma_consistent();
    }

    /// A kernel without claims or kitties, in which nobody holds any funds.
    pub fn new(config: kitties::Config) -> (kernel: Self)
        ensures
            kernel.wf(),
            kernel.deposit() == config.reserved,
            kernel.minimum() == config.existential_deposit,
            kernel@ == (State {
                claims: Claims::empty(),
                kitties: kitties::model::State::initial(no_accounts()),
            }),
    {
        LedgerKernel { poe: poe::Pallet::new(), kitties: kitties::Pallet::new(config) }
    }

    /// The claim registry.
    pub fn poe(&self) -> (registry: &poe::Pallet<MAX_CLAIM_LENGTH>)
        ensures
            registry@ == self@.claims,
            self.wf() ==> registry.wf(),
    {
        &self.poe
    }

    /// The kitty registry.
    pub fn kitties(&self) -> (registry: &kitties::Pallet<MAX_OWNED_ALLOWED>)
        ensures
            registry@ == self@.kitties,
            registry.deposit() == self.deposit(),
            registry.minimum() == self.minimum(),
            self.wf() ==> registry.wf(),
    {
        &self.kitties
    }

    /// Credits `amount` of free funds to `who`. Fails, changing nothing, when
    /// the account would hold more than a `Balance` can count.
    pub fn endow(&mut self, who: AccountId, amount: Balance) -> (res: Result<(), ()>)
        requires
            old(self).wf(),
        ensures
            final(self).wf(),
            final(self).deposit() == old(self).deposit(),
            final(self).minimum() == old(self).minimum(),
            final(self)@.claims == old(self)@.claims,
            res.is_ok() <==> old(self)@.kitties.balances[who].total() + amount <= Balance::MAX,
            res.is_ok() ==> final(self)@.kitties == (kitties::model::State {
                balances: old(self)@.kitties.balances.insert(
                    who,
                    AccountData {
                        free: (old(self)@.kitties.balances[who].free + amount) as Balance,
                        reserved: old(self)@.kitties.balances[who].reserved,
                    },
                ),
                ..old(self)@.kitties
            }),
            res.is_err() ==> final(self)@ == old(self)@,
    {
        self.kitties.endow(who, amount)
    }

    /// Applies `call`, made from `origin`, in `context`.
    ///
    /// Returns the events of the call if it went through. If it is rejected,
    /// returns the reason and leaves every table as it was.
    pub fn apply(&mut self, context: &Context, origin: Origin, call: Call) -> (res: Result<
        Vec<Event>,
        Error,
    >)
        requires
            old(self).wf(),
        ensures
            final(self).wf(),
            final(self).deposit() == old(self).deposit(),
            final(self).minimum() == old(self).minimum(),
            old(self)@.apply_outcome(
                final(self)@,
                MAX_CLAIM_LENGTH,
                MAX_OWNED_ALLOWED,
                old(self).deposit(),
                old(self).minimum(),
                *context,
                origin,
                call,
                res,
            ),
            res is Err ==> final(self)@ == old(self)@,
    {
        match call {
            Call::CreateClaim { claim } => {
                let inner = self.poe.create_claim(origin, claim, context.block_number);
                let res = report_poe(inner);
                assert(reports_poe(res, inner));
                res
            },
            Call::RevokeClaim { claim } => {
                let inner = self.poe.revoke_claim(origin, claim);
                let res = report_poe(inner);
                assert(reports_poe(res, inner));
                res
            },
            Call::TransferClaim { claim, dest } => {
                let inner = self.poe.transfer_claim(origin, claim, dest, context.block_number);
                let res = report_poe(inner);
                assert(reports_poe(res, inner));
                res
            },
            Call::Create => {
                let inner = self.kitties.create(
                    origin,
                    &context.random_seed,
                    context.extrinsic_index,
                );
                let res = report_kitties(inner);
                assert(reports_kitties(res, inner));
                res
            },
            Call::Breed { kitty_id_1, kitty_id_2 } => {
                let inner = self.kitties.breed(
                    origin,
                    kitty_id_1,
                    kitty_id_2,
                    &context.random_seed,
                    context.extrinsic_index,
                );
                let res = report_kitties(inner);
                assert(reports_kitties(res, inner));
                res
            },
            Call::Transfer { kitty_id, who } => {
                let inner = self.kitties.transfer(origin, kitty_id, who);
                let res = report_kitties(inner);
                assert(reports_kitties(res, inner));
                res
            },
            Call::Sell { kitty_id, price } => {
                let inner = self.kitties.sell(origin, kitty_id, price);
                let res = report_kitties(inner);
                assert(reports_kitties(res, inner));
                res
            },
            Call::Buy { kitty_id } => {
                let inner = self.kitties.buy(origin, kitty_id);
                let res = report_kitties(inner);
                assert(reports_kitties(res, inner));
                res
            },
        }
    }
}

} // verus!
