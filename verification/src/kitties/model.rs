//! The mathematical model of the kitty registry: its tables, the rules that
//! hold between them, and what each operation does to them.

use crate::ledger::{
    accounts_wf, can_reserve, can_transfer, reserved_in, transferred_in, unreserved_in,
    AccountData, Accounts, Balance,
};
use crate::randomness::selector;
use crate::system::{AccountId, ErrorKind, Origin};
use vstd::prelude::*;

verus! {

/// Identifies a kitty. Identifiers are handed out in increasing order,
/// starting at zero.
pub type KittyIndex = u32;

/// A kitty: sixteen bytes of genome.
#[derive(Clone, Copy, PartialEq, Eq, Debug)]
pub struct Kitty(pub [u8; 16]);

impl View for Kitty {
    type V = Seq<u8>;

    open spec fn view(&self) -> Seq<u8> {
        self.0@
    }
}

/// Why a call was rejected. A rejected call changes nothing.
#[derive(Clone, Copy, PartialEq, Eq, Debug, Structural)]
pub enum Error {
    /// No kitty has this identifier.
    InvalidKittyId,
    /// A kitty cannot breed with itself.
    SameKittyId,
    /// The caller does not own the kitty.
    NotOwner,
    /// The account cannot put up the deposit for a kitty.
    NotEnoughBalanceReserved,
    /// The caller already owns the kitty it wants to buy.
    AlreadyOwned,
    /// The kitty is not listed for sale.
    NotForSale,
    /// The buyer's free funds do not exceed the price plus the deposit.
    NotEnoughBalanceBuy,
    /// The account already owns as many kitties as one account may.
    ExceedMaxOwned,
    /// Every identifier has been handed out.
    IssuanceExhausted,
    /// The price could not be paid to the seller.
    PayableTransferFailed,
    /// The call did not come from an authenticated account.
    BadOrigin,
    /// The tables contradict each other. Never reported by a registry whose
    /// invariant holds.
    InvariantViolation,
}

impl Error {
    /// The class of the error.
    pub open spec fn spec_kind(self) -> ErrorKind {
        match self {
            Error::InvalidKittyId => ErrorKind::NotFound,
            Error::SameKittyId => ErrorKind::Conflict,
            Error::NotOwner => ErrorKind::Authorization,
            Error::NotEnoughBalanceReserved => ErrorKind::Funds,
            Error::AlreadyOwned => ErrorKind::Conflict,
            Error::NotForSale => ErrorKind::NotFound,
            Error::NotEnoughBalanceBuy => ErrorKind::Funds,
            Error::ExceedMaxOwned => ErrorKind::Capacity,
            Error::IssuanceExhausted => ErrorKind::Capacity,
            Error::PayableTransferFailed => ErrorKind::Funds,
            Error::BadOrigin => ErrorKind::Authorization,
            Error::InvariantViolation => ErrorKind::InvariantViolation,
        }
    }

    /// The class of the error.
    #[verifier::when_used_as_spec(spec_kind)]
    pub fn kind(self) -> (kind: ErrorKind)
        ensures
            kind == self.spec_kind(),
    {
        match self {
            Error::InvalidKittyId => ErrorKind::NotFound,
            Error::SameKittyId => ErrorKind::Conflict,
            Error::NotOwner => ErrorKind::Authorization,
            Error::NotEnoughBalanceReserved => ErrorKind::Funds,
            Error::AlreadyOwned => ErrorKind::Conflict,
            Error::NotForSale => ErrorKind::NotFound,
            Error::NotEnoughBalanceBuy => ErrorKind::Funds,
            Error::ExceedMaxOwned => ErrorKind::Capacity,
            Error::IssuanceExhausted => ErrorKind::Capacity,
            Error::PayableTransferFailed => ErrorKind::Funds,
            Error::BadOrigin => ErrorKind::Authorization,
            Error::InvariantViolation => ErrorKind::InvariantViolation,
        }
    }
}

/// What a call that went through reports.
#[derive(Clone, Copy, PartialEq, Eq, Debug)]
pub enum Event {
    /// An account created a kitty with this identifier.
    KittyCreated(AccountId, KittyIndex, Kitty),
    /// An account bred a kitty with this identifier.
    KittyBreed(AccountId, KittyIndex, Kitty),
    /// The first account transferred this kitty to the second.
    KittyTransferred(AccountId, AccountId, KittyIndex),
    /// An account listed this kitty at a price, or took it off the list.
    KittyOnSale(AccountId, KittyIndex, Option<Balance>),
    /// The first account sold this kitty to the second at this price.
    KittySaled(AccountId, AccountId, KittyIndex, Option<Balance>),
}

/// The tables of the registry.
#[verifier::ext_equal]
pub struct State {
    /// How many kitties were ever minted; also the next identifier.
    pub kitty_count: KittyIndex,
    /// The genome of every kitty by its identifier.
    pub kitties: Map<KittyIndex, Seq<u8>>,
    /// The owner of every kitty.
    pub kitty_owned_by: Map<KittyIndex, AccountId>,
    /// The kitties of every account, in the order kept by the registry. An
    /// account that owns none has an empty sequence.
    pub owned_kitty: Map<AccountId, Seq<KittyIndex>>,
    /// The asking price of every kitty that is for sale.
    pub sale_list: Map<KittyIndex, Balance>,
    /// What every account holds.
    pub balances: Accounts,
}

/// `items` without `item`: the last item takes the place of `item`.
pub open spec fn without(items: Seq<KittyIndex>, item: KittyIndex) -> Seq<KittyIndex> {
    let at = items.index_of(item);
    items.update(at, items.last()).drop_last()
}

/// The genome of a child: each bit comes from `first` where the selector has
/// a one and from `second` where it has a zero.
pub open spec fn child_genome(first: Seq<u8>, second: Seq<u8>, selector: Seq<u8>) -> Seq<u8> {
    Seq::new(16, |i: int| (first[i] & selector[i]) | (second[i] & !selector[i]))
}

impl State {
    /// The registry before anything happened, with the given holdings.
    pub open spec fn initial(balances: Accounts) -> State {
        State {
            kitty_count: 0,
            kitties: Map::empty(),
            kitty_owned_by: Map::empty(),
            owned_kitty: Map::total(|who: AccountId| Seq::empty()),
            sale_list: Map::empty(),
            balances,
        }
    }

    /// The kitties are exactly those with an identifier below the count, each
    /// has an owner, and only kitties are for sale.
    pub open spec fn ids_issued_in_order(self) -> bool {
        &&& forall|id: KittyIndex| #[trigger] self.kitties.contains_key(id) <==> id < self.kitty_count
        &&& forall|id: KittyIndex| #[trigger]
            self.kitty_owned_by.contains_key(id) <==> id < self.kitty_count
        &&& forall|id: KittyIndex| #[trigger]
            self.sale_list.contains_key(id) ==> id < self.kitty_count
    }

    /// Every genome has sixteen bytes.
    pub open spec fn genomes_sized(self) -> bool {
        forall|id: KittyIndex| #[trigger]
            self.kitties.contains_key(id) ==> self.kitties[id].len() == 16
    }

    /// A kitty is in exactly one account's sequence, once: its owner's.
    pub open spec fn ownership_bijective(self) -> bool {
        &&& forall|who: AccountId| #[trigger] self.owned_kitty.contains_key(who)
        &&& forall|who: AccountId| (#[trigger] self.owned_kitty[who]).no_duplicates()
        &&& forall|who: AccountId, id: KittyIndex|
            #![trigger self.owned_kitty[who].contains(id)]
            self.owned_kitty[who].contains(id) <==> (self.kitty_owned_by.contains_key(id)
                && self.kitty_owned_by[id] == who)
    }

    /// No account owns more than `max_owned` kitties.
    pub open spec fn within_capacity(self, max_owned: u32) -> bool {
        forall|who: AccountId| (#[trigger] self.owned_kitty[who]).len() <= max_owned
    }

    /// Every account has exactly one deposit in escrow per kitty it owns.
    pub open spec fn escrow_conserved(self, deposit: Balance) -> bool {
        forall|who: AccountId|
            (#[trigger] self.balances[who]).reserved == deposit * self.owned_kitty[who].len()
    }

    /// Everything that holds of the tables between any two calls.
    pub open spec fn consistent(self, deposit: Balance, max_owned: u32) -> bool {
        &&& accounts_wf(self.balances)
        &&& self.ids_issued_in_order()
        &&& self.genomes_sized()
        &&& self.ownership_bijective()
        &&& self.within_capacity(max_owned)
        &&& self.escrow_conserved(deposit)
    }

    /// Why minting a kitty for `owner` is rejected, if it is.
    pub open spec fn mint_error(self, deposit: Balance, max_owned: u32, owner: AccountId) -> Option<
        Error,
    > {
        if self.kitty_count == KittyIndex::MAX {
            Some(Error::IssuanceExhausted)
        } else if !can_reserve(self.balances, owner, deposit) {
            Some(Error::NotEnoughBalanceReserved)
        } else if self.owned_kitty[owner].len() >= max_owned {
            Some(Error::ExceedMaxOwned)
        } else {
            None
        }
    }

    /// The tables after a kitty with this genome was minted for `owner`: it
    /// gets the next identifier, and `owner` puts up a deposit for it.
    pub open spec fn minted(self, deposit: Balance, owner: AccountId, genome: Seq<u8>) -> State {
        let id = self.kitty_count;
        State {
            kitty_count: (id + 1) as KittyIndex,
            kitties: self.kitties.insert(id, genome),
            kitty_owned_by: self.kitty_owned_by.insert(id, owner),
            owned_kitty: self.owned_kitty.insert(owner, self.owned_kitty[owner].push(id)),
            sale_list: self.sale_list,
            balances: reserved_in(self.balances, owner, deposit),
        }
    }

    /// Why breeding two kitties on behalf of `sender` is rejected, if it is.
    pub open spec fn breed_error(
        self,
        deposit: Balance,
        max_owned: u32,
        sender: AccountId,
        kitty_id_1: KittyIndex,
        kitty_id_2: KittyIndex,
    ) -> Option<Error> {
        if kitty_id_1 == kitty_id_2 {
            Some(Error::SameKittyId)
        } else if !self.kitties.contains_key(kitty_id_1) || !self.kitties.contains_key(
            kitty_id_2,
        ) {
            Some(Error::InvalidKittyId)
        } else {
            self.mint_error(deposit, max_owned, sender)
        }
    }

    /// The tables after kitty `id` changed hands from `from` to `to`: it
    /// leaves the sequence of `from` and joins the end of that of `to`.
    pub open spec fn handed_over(self, id: KittyIndex, from: AccountId, to: AccountId) -> State {
        let left = without(self.owned_kitty[from], id);
        let joined = if to == from {
            left.push(id)
        } else {
            self.owned_kitty[to].push(id)
        };
        State {
            kitty_owned_by: self.kitty_owned_by.insert(id, to),
            owned_kitty: self.owned_kitty.insert(from, left).insert(to, joined),
            ..self
        }
    }

    /// Why a transfer of kitty `id` by `sender` to `to` is rejected, if it is.
    pub open spec fn transfer_error(
        self,
        deposit: Balance,
        max_owned: u32,
        sender: AccountId,
        id: KittyIndex,
        to: AccountId,
    ) -> Option<Error> {
        if !self.kitties.contains_key(id) {
            Some(Error::InvalidKittyId)
        } else if self.kitty_owned_by[id] != sender {
            Some(Error::NotOwner)
        } else if !can_reserve(self.balances, to, deposit) {
            Some(Error::NotEnoughBalanceReserved)
        } else if to != sender && self.owned_kitty[to].len() >= max_owned {
            Some(Error::ExceedMaxOwned)
        } else {
            None
        }
    }

    /// The holdings after the deposit on a kitty moved with it: `to` puts up
    /// a deposit, then `from` gets one back.
    pub open spec fn deposit_swapped(self, deposit: Balance, from: AccountId, to: AccountId) -> Accounts {
        unreserved_in(reserved_in(self.balances, to, deposit), from, deposit)
    }

    /// The tables after `sender` transferred kitty `id` to `to`.
    pub open spec fn transferred(
        self,
        deposit: Balance,
        sender: AccountId,
        id: KittyIndex,
        to: AccountId,
    ) -> State {
        State {
            balances: self.deposit_swapped(deposit, sender, to),
            ..self.handed_over(id, sender, to)
        }
    }

    /// Why listing kitty `id` by `sender` is rejected, if it is.
    pub open spec fn sell_error(self, sender: AccountId, id: KittyIndex) -> Option<Error> {
        if !self.kitties.contains_key(id) {
            Some(Error::InvalidKittyId)
        } else if self.kitty_owned_by[id] != sender {
            Some(Error::NotOwner)
        } else {
            None
        }
    }

    /// The tables after kitty `id` was listed at `price`, or taken off the
    /// list when there is no price.
    pub open spec fn listed(self, id: KittyIndex, price: Option<Balance>) -> State {
        State {
            sale_list: match price {
                Some(asked) => self.sale_list.insert(id, asked),
                None => self.sale_list.remove(id),
            },
            ..self
        }
    }

    /// Why the purchase of kitty `id` by `buyer` is rejected, if it is.
    ///
    /// The buyer's free funds must strictly exceed the price plus the
    /// deposit: funds that equal it are not enough.
    pub open spec fn buy_error(
        self,
        deposit: Balance,
        max_owned: u32,
        minimum: Balance,
        buyer: AccountId,
        id: KittyIndex,
    ) -> Option<Error> {
        if !self.kitty_owned_by.contains_key(id) {
            Some(Error::InvalidKittyId)
        } else if self.kitty_owned_by[id] == buyer {
            Some(Error::AlreadyOwned)
        } else if !self.sale_list.contains_key(id) {
            Some(Error::NotForSale)
        } else if self.balances[buyer].free <= self.sale_list[id] + deposit {
            Some(Error::NotEnoughBalanceBuy)
        } else if !can_reserve(self.balances, buyer, deposit) {
            Some(Error::NotEnoughBalanceReserved)
        } else if !can_transfer(
            self.deposit_swapped(deposit, self.kitty_owned_by[id], buyer),
            minimum,
            buyer,
            self.kitty_owned_by[id],
            self.sale_list[id],
            true,
        ) {
            Some(Error::PayableTransferFailed)
        } else if self.owned_kitty[buyer].len() >= max_owned {
            Some(Error::ExceedMaxOwned)
        } else {
            None
        }
    }

    /// The tables after `buyer` bought kitty `id`: the deposit moved with the
    /// kitty, the price went to the seller, and the kitty is off the list.
    pub open spec fn bought(self, deposit: Balance, buyer: AccountId, id: KittyIndex) -> State {
        let seller = self.kitty_owned_by[id];
        State {
            balances: transferred_in(
                self.deposit_swapped(deposit, seller, buyer),
                buyer,
                seller,
                self.sale_list[id],
            ),
            sale_list: self.sale_list.remove(id),
            ..self.handed_over(id, seller, buyer)
        }
    }

    /// Whether `after` and `res` are what a call to create a kitty leaves
    /// and returns, given the tables before it. The genome of the kitty is
    /// the selector for the seed, the caller and the command index.
    pub open spec fn create_outcome(
        self,
        after: State,
        deposit: Balance,
        max_owned: u32,
        origin: Origin,
        seed: Seq<u8>,
        index: Option<u32>,
        res: Result<Event, Error>,
    ) -> bool {
        match origin.signer() {
            None => res == Err::<Event, Error>(Error::BadOrigin) && after == self,
            Some(sender) => match self.mint_error(deposit, max_owned, sender) {
                Some(e) => res == Err::<Event, Error>(e) && after == self,
                None => {
                    &&& res matches Ok(Event::KittyCreated(who, id, kitty))
                    &&& who == sender
                    &&& id == self.kitty_count
                    &&& kitty@ == selector(seed, sender, index)
                    &&& after == self.minted(deposit, sender, kitty@)
                },
            },
        }
    }

    /// Whether `after` and `res` are what a call to breed two kitties leaves
    /// and returns, given the tables before it. The genome of the child is
    /// combined from those of the parents under the selector for the seed,
    /// the caller and the command index.
    pub open spec fn breed_outcome(
        self,
        after: State,
        deposit: Balance,
        max_owned: u32,
        origin: Origin,
        kitty_id_1: KittyIndex,
        kitty_id_2: KittyIndex,
        seed: Seq<u8>,
        index: Option<u32>,
        res: Result<Event, Error>,
    ) -> bool {
        match origin.signer() {
            None => res == Err::<Event, Error>(Error::BadOrigin) && after == self,
            Some(sender) => match self.breed_error(
                deposit,
                max_owned,
                sender,
                kitty_id_1,
                kitty_id_2,
            ) {
                Some(e) => res == Err::<Event, Error>(e) && after == self,
                None => {
                    &&& res matches Ok(Event::KittyBreed(who, id, kitty))
                    &&& who == sender
                    &&& id == self.kitty_count
                    &&& kitty@ == child_genome(
                        self.kitties[kitty_id_1],
                        self.kitties[kitty_id_2],
                        selector(seed, sender, index),
                    )
                    &&& after == self.minted(deposit, sender, kitty@)
                },
            },
        }
    }

    /// Whether `after` and `res` are what a call to transfer kitty `id` to
    /// `to` leaves and returns, given the tables before it.
    pub open spec fn transfer_outcome(
        self,
        after: State,
        deposit: Balance,
        max_owned: u32,
        origin: Origin,
        id: KittyIndex,
        to: AccountId,
        res: Result<Event, Error>,
    ) -> bool {
        match origin.signer() {
            None => res == Err::<Event, Error>(Error::BadOrigin) && after == self,
            Some(sender) => match self.transfer_error(deposit, max_owned, sender, id, to) {
                Some(e) => res == Err::<Event, Error>(e) && after == self,
                None => {
                    &&& res == Ok::<Event, Error>(Event::KittyTransferred(sender, to, id))
                    &&& after == self.transferred(deposit, sender, id, to)
                },
            },
        }
    }

    /// Whether `after` and `res` are what a call to list kitty `id` at
    /// `price` leaves and returns, given the tables before it.
    pub open spec fn sell_outcome(
        self,
        after: State,
        origin: Origin,
        id: KittyIndex,
        price: Option<Balance>,
        res: Result<Event, Error>,
    ) -> bool {
        match origin.signer() {
            None => res == Err::<Event, Error>(Error::BadOrigin) && after == self,
            Some(sender) => match self.sell_error(sender, id) {
                Some(e) => res == Err::<Event, Error>(e) && after == self,
                None => {
                    &&& res == Ok::<Event, Error>(Event::KittyOnSale(sender, id, price))
                    &&& after == self.listed(id, price)
                },
            },
        }
    }

    /// Whether `after` and `res` are what a call to buy kitty `id` leaves
    /// and returns, given the tables before it.
    pub open spec fn buy_outcome(
        self,
        after: State,
        deposit: Balance,
        max_owned: u32,
        minimum: Balance,
        origin: Origin,
        id: KittyIndex,
        res: Result<Event, Error>,
    ) -> bool {
        match origin.signer() {
            None => res == Err::<Event, Error>(Error::BadOrigin) && after == self,
            Some(buyer) => match self.buy_error(deposit, max_owned, minimum, buyer, id) {
                Some(e) => res == Err::<Event, Error>(e) && after == self,
                None => {
                    &&& res == Ok::<Event, Error>(
                        Event::KittySaled(
                            self.kitty_owned_by[id],
                            buyer,
                            id,
                            Some(self.sale_list[id]),
                        ),
                    )
                    &&& after == self.bought(deposit, buyer, id)
                },
            },
        }
    }
}

/// One change to the tables, whoever asks for it and however the genome of a
/// new kitty came about.
pub enum Step {
    /// Free funds are credited to an account.
    Endow { who: AccountId, amount: Balance },
    /// A kitty with this genome of sixteen bytes is minted for an account:
    /// on its own, by a call to create a kitty, or by a call to breed one.
    Mint { owner: AccountId, genome: Seq<u8> },
    /// An account transfers a kitty to another.
    Transfer { sender: AccountId, id: KittyIndex, to: AccountId },
    /// An account lists a kitty for sale, or takes it off the list.
    Sell { sender: AccountId, id: KittyIndex, price: Option<Balance> },
    /// An account buys a kitty.
    Buy { buyer: AccountId, id: KittyIndex },
}

impl State {
    /// The tables after a step: changed as the step says if it goes
    /// through, and as they were if it is rejected.
    pub open spec fn after(
        self,
        deposit: Balance,
        max_owned: u32,
        minimum: Balance,
        step: Step,
    ) -> State {
        match step {
            Step::Endow { who, amount } => if self.balances[who].total() + amount <= Balance::MAX {
                State {
                    balances: self.balances.insert(
                        who,
                        AccountData {
                            free: (self.balances[who].free + amount) as Balance,
                            reserved: self.balances[who].reserved,
                        },
                    ),
                    ..self
                }
            } else {
                self
            },
            Step::Mint { owner, genome } => if genome.len() == 16 && self.mint_error(
                deposit,
                max_owned,
                owner,
            ) is None {
                self.minted(deposit, owner, genome)
            } else {
                self
            },
            Step::Transfer { sender, id, to } => if self.transfer_error(
                deposit,
                max_owned,
                sender,
                id,
                to,
            ) is None {
                self.transferred(deposit, sender, id, to)
            } else {
                self
            },
            Step::Sell { sender, id, price } => if self.sell_error(sender, id) is None {
                self.listed(id, price)
            } else {
                self
            },
            Step::Buy { buyer, id } => if self.buy_error(
                deposit,
                max_owned,
                minimum,
                buyer,
                id,
            ) is None {
                self.bought(deposit, buyer, id)
            } else {
                self
            },
        }
    }

    /// The tables after a sequence of steps, one after the other.
    pub open spec fn after_all(
        self,
        deposit: Balance,
        max_owned: u32,
        minimum: Balance,
        steps: Seq<Step>,
    ) -> State
        decreases steps.len(),
    {
        if steps.len() == 0 {
            self
        } else {
            self.after_all(deposit, max_owned, minimum, steps.drop_last()).after(
                deposit,
                max_owned,
                minimum,
                steps.last(),
            )
        }
    }
}

} // verus!
