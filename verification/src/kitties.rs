//! The kitty registry: minting, breeding, transfers and a marketplace, each
//! kitty backed by a deposit held in escrow for its owner.
//!
//! The registry owns its tables and its ledger. Every call either goes
//! through, and then changes the tables as [`model::State`] says, or is
//! rejected with an [`model::Error`] and changes nothing.

pub mod laws;
pub mod model;

use crate::bounded::try_push;
use crate::kitties::laws::{
    lemma_bought_consistent, lemma_deposit_swapped, lemma_handed_over, lemma_listed_consistent,
    lemma_minted_consistent, lemma_owner_has_deposit, lemma_transferred_consistent, lemma_without,
};
use crate::kitties::model::{child_genome, without};
pub use crate::kitties::model::{Error, Event, Kitty, KittyIndex, State};
use crate::ledger::{no_accounts, AccountData, Balance, BalanceLedger};
use crate::randomness::{random_value, Seed};
use crate::system::{ensure_signed, AccountId, Origin};
use std::collections::HashMap;
use vstd::prelude::*;

verus! {

broadcast use vstd::std_specs::hash::group_hash_axioms;

/// The settings of a registry.
#[derive(Clone, Copy, PartialEq, Eq, Debug, Structural)]
pub struct Config {
    /// The deposit held in escrow for every kitty an account owns.
    pub reserved: Balance,
    /// The least total an account may be left with by a payment.
    pub existential_deposit: Balance,
}

/// What the registry keeps for one kitty.
#[derive(Clone, Copy)]
struct Entry {
    kitty: Kitty,
    owner: AccountId,
    price: Option<Balance>,
}

/// The kitty registry. No account can own more than `MAX_OWNED_ALLOWED`
/// kitties at a time.
pub struct Pallet<const MAX_OWNED_ALLOWED: u32> {
    reserved: Balance,
    currency: BalanceLedger,
    entries: Vec<Entry>,
    owned: HashMap<AccountId, Vec<KittyIndex>>,
}

impl<const MAX_OWNED_ALLOWED: u32> View for Pallet<MAX_OWNED_ALLOWED> {
    type V = State;

    closed spec fn view(&self) -> State {
        State {
            kitty_count: self.entries@.len() as KittyIndex,
            kitties: Map::new(
                |id: KittyIndex| id < self.entries@.len(),
                |id: KittyIndex| self.entries@[id as int].kitty@,
            ),
            kitty_owned_by: Map::new(
                |id: KittyIndex| id < self.entries@.len(),
                |id: KittyIndex| self.entries@[id as int].owner,
            ),
            owned_kitty: Map::total(
                |who: AccountId|
                    if self.owned@.contains_key(who) {
                        self.owned@[who]@
                    } else {
                        Seq::empty()
                    },
            ),
            sale_list: Map::new(
                |id: KittyIndex| id < self.entries@.len() && self.entries@[id as int].price is Some,
                |id: KittyIndex| self.entries@[id as int].price->0,
            ),
            balances: self.currency.accounts(),
        }
    }
}

/// The identifier of the first kitty: zero.
#[allow(non_snake_case)]
pub fn GetDefaultValue() -> (first: KittyIndex)
    ensures
        first == 0,
{
    0
}

impl<const MAX_OWNED_ALLOWED: u32> Pallet<MAX_OWNED_ALLOWED> {
    /// The deposit held in escrow for every kitty.
    pub closed spec fn deposit(&self) -> Balance {
        self.reserved
    }

    /// The least total an account may be left with by a payment.
    pub closed spec fn minimum(&self) -> Balance {
        self.currency.minimum()
    }

    /// The registry's invariant: its tables are consistent.
    pub closed spec fn wf(&self) -> bool {
        &&& self.currency.wf()
        &&& self.entries@.len() <= KittyIndex::MAX
        &&& self@.consistent(self.reserved, MAX_OWNED_ALLOWED)
    }

    /// The tables of a well-formed registry are consistent: identifiers are
    /// dense, every kitty has exactly one owner, no account is over capacity,
    /// and every account has one deposit in escrow per kitty.
    pub proof fn lemma_consistent(&self)
        requires
            self.wf(),
        ensures
            self@.consistent(self.deposit(), MAX_OWNED_ALLOWED),
    {
    }

    /// A registry without kitties, in which nobody holds any funds.
    pub fn new(config: Config) -> (pallet: Self)
        ensures
            pallet.wf(),
            pallet.deposit() == config.reserved,
            pallet.minimum() == config.existential_deposit,
            pallet@ == State::initial(no_accounts()),
    {
        let pallet = Pallet {
            reserved: config.reserved,
            currency: BalanceLedger::new(config.existential_deposit),
            entries: Vec::new(),
            owned: HashMap::new(),
        };
        proof {
            assert(pallet@ =~= State::initial(no_accounts()));
            crate::kitties::laws::lemma_initial_consistent(
                no_accounts(),
                config.reserved,
                MAX_OWNED_ALLOWED,
            );
        }
        pallet
    }

    /// Credits `amount` of free funds to `who`. Fails, changing nothing, when
    /// the account would hold more than a `Balance` can count.
    pub fn endow(&mut self, who: AccountId, amount: Balance) -> (res: Result<(), ()>)
        requires
            old(self).wf(),
        ensures
            final(self).wf(),
            final(self).deposit() == old(self).deposit(),
            final(self).minimum() == old(self).minimum(),
            res.is_ok() <==> old(self)@.balances[who].total() + amount <= Balance::MAX,
            res.is_ok() ==> final(self)@ == (State {
                balances: old(self)@.balances.insert(
                    who,
                    AccountData {
                        free: (old(self)@.balances[who].free + amount) as Balance,
                        reserved: old(self)@.balances[who].reserved,
                    },
                ),
                ..old(self)@
            }),
            res.is_err() ==> final(self)@ == old(self)@,
    {
        let res = self.currency.endow(who, amount);
        proof {
            if res.is_ok() {
                assert forall|other: AccountId|
                    (#[trigger] self@.balances[other]).reserved == self.reserved
                        * self@.owned_kitty[other].len() by {
                    assert(old(self)@.balances[other].reserved == self.reserved
                        * old(self)@.owned_kitty[other].len());
                }
                self.currency.lemma_wf();
            }
        }
        res
    }

    /// The ledger beneath the registry.
    pub fn currency(&self) -> (ledger: &BalanceLedger)
        ensures
            ledger.accounts() == self@.balances,
            ledger.minimum() == self.minimum(),
    {
        &self.currency
    }

    /// How many kitties were ever minted.
    pub fn kitty_count(&self) -> (count: KittyIndex)
        requires
            self.wf(),
        ensures
            count == self@.kitty_count,
    {
        self.entries.len() as KittyIndex
    }

    /// The kitty with this identifier, if there is one.
    pub fn kitties(&self, kitty_id: KittyIndex) -> (kitty: Option<Kitty>)
        ensures
            kitty is Some <==> self@.kitties.contains_key(kitty_id),
            kitty matches Some(found) ==> found@ == self@.kitties[kitty_id],
    {
        if (kitty_id as usize) < self.entries.len() {
            Some(self.entries[kitty_id as usize].kitty)
        } else {
            None
        }
    }

    /// The owner of the kitty with this identifier, if there is one.
    pub fn kitty_owned_by(&self, kitty_id: KittyIndex) -> (owner: Option<AccountId>)
        ensures
            owner == if self@.kitty_owned_by.contains_key(kitty_id) {
                Some(self@.kitty_owned_by[kitty_id])
            } else {
                None
            },
    {
        if (kitty_id as usize) < self.entries.len() {
            Some(self.entries[kitty_id as usize].owner)
        } else {
            None
        }
    }

    /// The kitties of `who`, in the order kept by the registry.
    pub fn owned_kitty(&self, who: AccountId) -> (owned: Vec<KittyIndex>)
        ensures
            owned@ == self@.owned_kitty[who],
    {
        match self.owned.get(&who) {
            Some(owned) => owned.clone(),
            None => Vec::new(),
        }
    }

    /// The asking price of the kitty with this identifier, if it is for sale.
    pub fn sale_list(&self, kitty_id: KittyIndex) -> (price: Option<Balance>)
        ensures
            price == if self@.sale_list.contains_key(kitty_id) {
                Some(self@.sale_list[kitty_id])
            } else {
                None
            },
    {
        if (kitty_id as usize) < self.entries.len() {
            self.entries[kitty_id as usize].price
        } else {
            None
        }
    }

    /// The identifier the next kitty will get, unless every identifier has
    /// been handed out.
    pub fn get_next_id(&self) -> (res: Result<KittyIndex, ()>)
        requires
            self.wf(),
        ensures
            res == if self@.kitty_count == KittyIndex::MAX {
                Err::<KittyIndex, ()>(())
            } else {
                Ok::<KittyIndex, ()>(self@.kitty_count)
            },
    {
        let count = self.kitty_count();
        if count == KittyIndex::MAX {
            Err(())
        } else {
            Ok(count)
        }
    }

    /// The kitty with this identifier, or an error if there is none.
    pub fn get_kitty(&self, kitty_id: KittyIndex) -> (res: Result<Kitty, ()>)
        ensures
            res is Ok <==> self@.kitties.contains_key(kitty_id),
            res matches Ok(found) ==> found@ == self@.kitties[kitty_id],
    {
        match self.kitties(kitty_id) {
            Some(kitty) => Ok(kitty),
            None => Err(()),
        }
    }

    /// Mints a kitty with genome `dna` for `owner`, who puts up the deposit.
    ///
    /// Rejected when every identifier has been handed out, when `owner`
    /// cannot put up the deposit, or when `owner` is at capacity, in that
    /// order. On success returns the owner, the new identifier and the kitty.
    pub fn mint(&mut self, owner: AccountId, dna: [u8; 16]) -> (res: Result<
        (AccountId, KittyIndex, Kitty),
        Error,
    >)
        requires
            old(self).wf(),
        ensures
            final(self).wf(),
            final(self).deposit() == old(self).deposit(),
            final(self).minimum() == old(self).minimum(),
            match res {
                Ok(minted) => {
                    &&& old(self)@.mint_error(old(self).deposit(), MAX_OWNED_ALLOWED, owner) is None
                    &&& minted == (owner, old(self)@.kitty_count, Kitty(dna))
                    &&& final(self)@ == old(self)@.minted(old(self).deposit(), owner, dna@)
                },
                Err(e) => {
                    &&& old(self)@.mint_error(old(self).deposit(), MAX_OWNED_ALLOWED, owner)
                        == Some(e)
                    &&& final(self)@ == old(self)@
                },
            },
    {
        let kitty_id = match self.get_next_id() {
            Ok(id) => id,
            Err(_) => {
                return Err(Error::IssuanceExhausted);
            },
        };
        if !self.currency.can_reserve(owner, self.reserved) {
            return Err(Error::NotEnoughBalanceReserved);
        }
        let grown = match try_push::<MAX_OWNED_ALLOWED>(self.owned_kitty(owner), kitty_id) {
            Ok(grown) => grown,
            Err(_) => {
                return Err(Error::ExceedMaxOwned);
            },
        };
        let new_kitty = Kitty(dna);
        let reserved = self.currency.reserve(owner, self.reserved);
        self.entries.push(Entry { kitty: new_kitty, owner, price: None });
        self.owned.insert(owner, grown);
        proof {
            let before = old(self)@;
            let after = before.minted(self.reserved, owner, dna@);
            assert(reserved.is_ok());
            assert(self@.kitties =~= after.kitties);
            assert(self@.kitty_owned_by =~= after.kitty_owned_by);
            assert(self@.owned_kitty =~= after.owned_kitty);
            assert(self@.sale_list =~= after.sale_list);
            assert(self@ =~= after);
            lemma_minted_consistent(before, self.reserved, MAX_OWNED_ALLOWED, owner, dna@);
        }
        Ok((owner, kitty_id, new_kitty))
    }

    /// Creates a kitty for the caller. Its genome is the selector derived
    /// from the seed, the caller and the index of the command.
    ///
    /// Rejected when the origin is not an account, and then as [`Self::mint`].
    pub fn create(&mut self, origin: Origin, seed: &Seed, extrinsic_index: Option<u32>) -> (res:
        Result<Event, Error>)
        requires
            old(self).wf(),
        ensures
            final(self).wf(),
            final(self).deposit() == old(self).deposit(),
            final(self).minimum() == old(self).minimum(),
            old(self)@.create_outcome(
                final(self)@,
                old(self).deposit(),
                MAX_OWNED_ALLOWED,
                origin,
                seed@,
                extrinsic_index,
                res,
            ),
    {
        let sender = match ensure_signed(origin) {
            Ok(sender) => sender,
            Err(_) => {
                return Err(Error::BadOrigin);
            },
        };
        let dna = random_value(seed, sender, extrinsic_index);
        match self.mint(sender, dna) {
            Ok(minted) => Ok(Event::KittyCreated(minted.0, minted.1, minted.2)),
            Err(e) => Err(e),
        }
    }

    /// Breeds two different kitties into a new one for the caller. Each bit
    /// of the child's genome comes from the first parent where the selector
    /// has a one and from the second where it has a zero; the selector is
    /// derived from the seed, the caller and the index of the command.
    ///
    /// Rejected when the origin is not an account, when the two identifiers
    /// are equal, when either kitty does not exist, and then as [`Self::mint`].
    pub fn breed(
        &mut self,
        origin: Origin,
        kitty_id_1: KittyIndex,
        kitty_id_2: KittyIndex,
        seed: &Seed,
        extrinsic_index: Option<u32>,
    ) -> (res: Result<Event, Error>)
        requires
            old(self).wf(),
        ensures
            final(self).wf(),
            final(self).deposit() == old(self).deposit(),
            final(self).minimum() == old(self).minimum(),
            old(self)@.breed_outcome(
                final(self)@,
                old(self).deposit(),
                MAX_OWNED_ALLOWED,
                origin,
                kitty_id_1,
                kitty_id_2,
                seed@,
                extrinsic_index,
                res,
            ),
    {
        let sender = match ensure_signed(origin) {
            Ok(sender) => sender,
            Err(_) => {
                return Err(Error::BadOrigin);
            },
        };
        if kitty_id_1 == kitty_id_2 {
            return Err(Error::SameKittyId);
        }
        let kitty_1 = match self.get_kitty(kitty_id_1) {
            Ok(kitty) => kitty,
            Err(_) => {
                return Err(Error::InvalidKittyId);
            },
        };
        let kitty_2 = match self.get_kitty(kitty_id_2) {
            Ok(kitty) => kitty,
            Err(_) => {
                return Err(Error::InvalidKittyId);
            },
        };
        let selector = random_value(seed, sender, extrinsic_index);
        let dna = breed_genome(&kitty_1, &kitty_2, &selector);
        match self.mint(sender, dna) {
            Ok(minted) => Ok(Event::KittyBreed(minted.0, minted.1, minted.2)),
            Err(e) => Err(e),
        }
    }

    /// Transfers kitty `kitty_id` from the caller to `who`. The deposit moves
    /// with the kitty: `who` puts one up and the caller gets one back.
    ///
    /// Rejected when the origin is not an account, when the kitty does not
    /// exist, when the caller does not own it, when `who` cannot put up the
    /// deposit, or when `who` is another account at capacity, in that order.
    pub fn transfer(&mut self, origin: Origin, kitty_id: KittyIndex, who: AccountId) -> (res:
        Result<Event, Error>)
        requires
            old(self).wf(),
        ensures
            final(self).wf(),
            final(self).deposit() == old(self).deposit(),
            final(self).minimum() == old(self).minimum(),
            old(self)@.transfer_outcome(
                final(self)@,
                old(self).deposit(),
                MAX_OWNED_ALLOWED,
                origin,
                kitty_id,
                who,
                res,
            ),
    {
        let sender = match ensure_signed(origin) {
            Ok(sender) => sender,
            Err(_) => {
                return Err(Error::BadOrigin);
            },
        };
        let owner = match self.kitty_owned_by(kitty_id) {
            Some(owner) => owner,
            None => {
                return Err(Error::InvalidKittyId);
            },
        };
        if owner != sender {
            return Err(Error::NotOwner);
        }
        if !self.currency.can_reserve(who, self.reserved) {
            return Err(Error::NotEnoughBalanceReserved);
        }
        match self.update_to_new_owner(kitty_id, sender, who) {
            Ok(_) => {},
            Err(e) => {
                return Err(e);
            },
        }
        proof {
            lemma_handed_over(old(self)@, MAX_OWNED_ALLOWED, kitty_id, sender, who);
            lemma_owner_has_deposit(old(self)@, self.reserved, sender);
        }
        let reserved = self.currency.reserve(who, self.reserved);
        self.currency.unreserve(sender, self.reserved);
        self.set_owner(kitty_id, who);
        proof {
            let before = old(self)@;
            let after = before.transferred(self.reserved, sender, kitty_id, who);
            assert(reserved.is_ok());
            assert(self@.kitties =~= after.kitties);
            assert(self@.kitty_owned_by =~= after.kitty_owned_by);
            assert(self@.sale_list =~= after.sale_list);
            assert(self@ =~= after);
            lemma_transferred_consistent(
                before,
                self.reserved,
                MAX_OWNED_ALLOWED,
                sender,
                kitty_id,
                who,
            );
        }
        Ok(Event::KittyTransferred(sender, who, kitty_id))
    }

    /// Lists the caller's kitty `kitty_id` for sale at `price`, or takes it
    /// off the list when `price` is `None`.
    ///
    /// Rejected when the origin is not an account, when the kitty does not
    /// exist, or when the caller does not own it, in that order.
    pub fn sell(&mut self, origin: Origin, kitty_id: KittyIndex, price: Option<Balance>) -> (res:
        Result<Event, Error>)
        requires
            old(self).wf(),
        ensures
            final(self).wf(),
            final(self).deposit() == old(self).deposit(),
            final(self).minimum() == old(self).minimum(),
            old(self)@.sell_outcome(final(self)@, origin, kitty_id, price, res),
    {
        let sender = match ensure_signed(origin) {
            Ok(sender) => sender,
            Err(_) => {
                return Err(Error::BadOrigin);
            },
        };
        let owner = match self.kitty_owned_by(kitty_id) {
            Some(owner) => owner,
            None => {
                return Err(Error::InvalidKittyId);
            },
        };
        if owner != sender {
            return Err(Error::NotOwner);
        }
        self.set_price(kitty_id, price);
        proof {
            let before = old(self)@;
            let after = before.listed(kitty_id, price);
            assert(self@.kitties =~= after.kitties);
            assert(self@.kitty_owned_by =~= after.kitty_owned_by);
            assert(self@.sale_list =~= after.sale_list);
            assert(self@ =~= after);
            lemma_listed_consistent(
                before,
                self.reserved,
                MAX_OWNED_ALLOWED,
                sender,
                kitty_id,
                price,
            );
        }
        Ok(Event::KittyOnSale(sender, kitty_id, price))
    }

    /// Buys kitty `kitty_id` for the caller at its asking price. The deposit
    /// moves with the kitty, the price goes from the buyer to the seller, and
    /// the kitty comes off the list.
    ///
    /// Rejected when the origin is not an account, when the kitty does not
    /// exist, when the caller owns it, when it is not for sale, when the
    /// caller's free funds do not strictly exceed the price plus the deposit,
    /// when the price cannot be paid to the seller, or when the caller is at
    /// capacity, in that order.
    pub fn buy(&mut self, origin: Origin, kitty_id: KittyIndex) -> (res: Result<Event, Error>)
        requires
            old(self).wf(),
        ensures
            final(self).wf(),
            final(self).deposit() == old(self).deposit(),
            final(self).minimum() == old(self).minimum(),
            old(self)@.buy_outcome(
                final(self)@,
                old(self).deposit(),
                MAX_OWNED_ALLOWED,
                old(self).minimum(),
                origin,
                kitty_id,
                res,
            ),
    {
        let buyer = match ensure_signed(origin) {
            Ok(buyer) => buyer,
            Err(_) => {
                return Err(Error::BadOrigin);
            },
        };
        let owner = match self.kitty_owned_by(kitty_id) {
            Some(owner) => owner,
            None => {
                return Err(Error::InvalidKittyId);
            },
        };
        if buyer == owner {
            return Err(Error::AlreadyOwned);
        }
        let price = match self.sale_list(kitty_id) {
            Some(price) => price,
            None => {
                return Err(Error::NotForSale);
            },
        };
        let affordable = match price.checked_add(self.reserved) {
            Some(needed) => self.currency.spendable_balance(buyer) > needed,
            None => false,
        };
        if !affordable {
            return Err(Error::NotEnoughBalanceBuy);
        }
        proof {
            assert(old(self)@.owned_kitty[owner].contains(kitty_id));
            lemma_owner_has_deposit(old(self)@, self.reserved, owner);
            lemma_deposit_swapped(old(self)@, self.reserved, owner, buyer);
        }
        match self.currency.reserve(buyer, self.reserved) {
            Ok(_) => {},
            Err(_) => {
                return Err(Error::NotEnoughBalanceReserved);
            },
        }
        self.currency.unreserve(owner, self.reserved);
        if !self.currency.can_transfer(buyer, owner, price, true) {
            self.restore_deposit(owner, buyer);
            assert(self.currency.accounts() =~= old(self)@.balances);
            return Err(Error::PayableTransferFailed);
        }
        match self.update_to_new_owner(kitty_id, owner, buyer) {
            Ok(_) => {},
            Err(e) => {
                self.restore_deposit(owner, buyer);
                assert(self.currency.accounts() =~= old(self)@.balances);
                return Err(e);
            },
        }
        let paid = self.currency.transfer(buyer, owner, price, true);
        self.set_owner(kitty_id, buyer);
        self.set_price(kitty_id, None);
        proof {
            let before = old(self)@;
            let after = before.bought(self.reserved, buyer, kitty_id);
            assert(paid.is_ok());
            assert(self@.kitties =~= after.kitties);
            assert(self@.kitty_owned_by =~= after.kitty_owned_by);
            assert(self@.sale_list =~= after.sale_list);
            assert(self@ =~= after);
            lemma_bought_consistent(
                before,
                self.reserved,
                MAX_OWNED_ALLOWED,
                self.currency.minimum(),
                buyer,
                kitty_id,
            );
        }
        Ok(Event::KittySaled(owner, buyer, kitty_id, Some(price)))
    }

    /// Undoes a deposit swap: `owner` puts its deposit up again, and `buyer`
    /// gets back the one it had put up.
    fn restore_deposit(&mut self, owner: AccountId, buyer: AccountId)
        requires
            old(self).currency.wf(),
        ensures
            final(self).currency.wf(),
            final(self).currency.minimum() == old(self).currency.minimum(),
            final(self).reserved == old(self).reserved,
            final(self).entries == old(self).entries,
            final(self).owned == old(self).owned,
            crate::ledger::can_reserve(old(self).currency.accounts(), owner, old(self).reserved)
                ==> final(self).currency.accounts() == crate::ledger::unreserved_in(
                crate::ledger::reserved_in(
                    old(self).currency.accounts(),
                    owner,
                    old(self).reserved,
                ),
                buyer,
                old(self).reserved,
            ),
    {
        let _ = self.currency.reserve(owner, self.reserved);
        self.currency.unreserve(buyer, self.reserved);
    }

    /// Records `owner` as the owner of kitty `kitty_id`.
    fn set_owner(&mut self, kitty_id: KittyIndex, owner: AccountId)
        requires
            kitty_id < old(self).entries@.len(),
        ensures
            final(self).reserved == old(self).reserved,
            final(self).currency == old(self).currency,
            final(self).owned == old(self).owned,
            final(self).entries@ == old(self).entries@.update(
                kitty_id as int,
                Entry { owner, ..old(self).entries@[kitty_id as int] },
            ),
    {
        let entry = self.entries[kitty_id as usize];
        self.entries[kitty_id as usize] = Entry { owner, ..entry };
    }

    /// Records `price` as the asking price of kitty `kitty_id`.
    fn set_price(&mut self, kitty_id: KittyIndex, price: Option<Balance>)
        requires
            kitty_id < old(self).entries@.len(),
        ensures
            final(self).reserved == old(self).reserved,
            final(self).currency == old(self).currency,
            final(self).owned == old(self).owned,
            final(self).entries@ == old(self).entries@.update(
                kitty_id as int,
                Entry { price, ..old(self).entries@[kitty_id as int] },
            ),
    {
        let entry = self.entries[kitty_id as usize];
        self.entries[kitty_id as usize] = Entry { price, ..entry };
    }

    /// Takes kitty `kitty_id` out of the sequence of `from` and appends it
    /// to that of `to`. Rejected, changing nothing, when `to` is another
    /// account that is at capacity. Touches nothing but the two sequences.
    fn update_to_new_owner(&mut self, kitty_id: KittyIndex, from: AccountId, to: AccountId) -> (res:
        Result<(), Error>)
        requires
            old(self)@.ownership_bijective(),
            old(self)@.within_capacity(MAX_OWNED_ALLOWED),
            old(self)@.kitty_owned_by.contains_key(kitty_id),
            old(self)@.kitty_owned_by[kitty_id] == from,
        ensures
            final(self).reserved == old(self).reserved,
            final(self).currency == old(self).currency,
            final(self).entries == old(self).entries,
            match res {
                Ok(_) => {
                    &&& to != from ==> old(self)@.owned_kitty[to].len() < MAX_OWNED_ALLOWED
                    &&& final(self)@.owned_kitty == old(self)@.handed_over(
                        kitty_id,
                        from,
                        to,
                    ).owned_kitty
                },
                Err(e) => {
                    &&& e == Error::ExceedMaxOwned
                    &&& to != from
                    &&& old(self)@.owned_kitty[to].len() >= MAX_OWNED_ALLOWED
                    &&& final(self).owned == old(self).owned
                },
            },
    {
        let mut from_owned = self.owned_kitty(from);
        let ghost owned_before = from_owned@;
        assert(owned_before.contains(kitty_id));
        let ind = match position(&from_owned, kitty_id) {
            Some(ind) => ind,
            None => {
                return Err(Error::InvariantViolation);
            },
        };
        assert(ind as int == owned_before.index_of(kitty_id)) by {
            let at = owned_before.index_of(kitty_id);
            assert(0 <= at < owned_before.len() && owned_before[at] == kitty_id);
            assert(owned_before.no_duplicates());
        }
        let swap_id = from_owned.swap_remove(ind);
        assert(from_owned@ == without(owned_before, kitty_id));
        let to_owned = if to == from {
            from_owned.clone()
        } else {
            self.owned_kitty(to)
        };
        let grown = match try_push::<MAX_OWNED_ALLOWED>(to_owned, swap_id) {
            Ok(grown) => grown,
            Err(_) => {
                proof {
                    // Taking the kitty out of a sequence made room in that sequence.
                    lemma_without(owned_before, kitty_id);
                    assert(old(self)@.owned_kitty[from].len() <= MAX_OWNED_ALLOWED);
                }
                return Err(Error::ExceedMaxOwned);
            },
        };
        self.owned.insert(from, from_owned);
        self.owned.insert(to, grown);
        proof {
            assert(self@.owned_kitty =~= old(self)@.handed_over(kitty_id, from, to).owned_kitty);
        }
        Ok(())
    }
}

/// Combines two genomes under a selector: each bit of the child comes from
/// `first` where the selector has a one and from `second` where it has a zero.
pub fn breed_genome(first: &Kitty, second: &Kitty, selector: &[u8; 16]) -> (dna: [u8; 16])
    ensures
        dna@ == child_genome(first@, second@, selector@),
{
    let mut dna = [0u8; 16];
    let mut i: usize = 0;
    while i < 16
        invariant
            i <= 16,
            forall|j: int|
                0 <= j < i ==> dna@[j] == (first.0@[j] & selector@[j]) | (second.0@[j]
                    & !selector@[j]),
        decreases 16 - i,
    {
        dna[i] = (first.0[i] & selector[i]) | (second.0[i] & !selector[i]);
        i = i + 1;
    }
    assert(dna@ =~= child_genome(first@, second@, selector@));
    dna
}

/// The first place at which `item` occurs in `items`, if it occurs at all.
fn position(items: &Vec<KittyIndex>, item: KittyIndex) -> (found: Option<usize>)
    ensures
        match found {
            Some(at) => at < items@.len() && items@[at as int] == item,
            None => !items@.contains(item),
        },
{
    let mut at: usize = 0;
    while at < items.len()
        invariant
            at <= items@.len(),
            forall|i: int| 0 <= i < at ==> items@[i] != item,
        decreases items@.len() - at,
    {
        if items[at] == item {
            return Some(at);
        }
        at = at + 1;
    }
    None
}

} // verus!
