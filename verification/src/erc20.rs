//! A fungible token: balances, allowances and transfers.
//!
//! The supply is fixed when the token is created and all of it goes to the
//! creator. Transfers move tokens between accounts and never create or
//! destroy any: the balances always add up to the supply.

use crate::ledger::Balance;
use crate::table::{place, Table};
use vstd::prelude::*;

verus! {

/// Identifies a holder of tokens: thirty-two bytes.
#[derive(Clone, Copy, PartialEq, Eq, Debug)]
pub struct AccountId(pub [u8; 32]);

impl View for AccountId {
    type V = Seq<u8>;

    open spec fn view(&self) -> Seq<u8> {
        self.0@
    }
}

impl From<[u8; 32]> for AccountId {
    fn from(bytes: [u8; 32]) -> (id: AccountId) {
        AccountId(bytes)
    }
}

impl vstd::std_specs::convert::FromSpecImpl<[u8; 32]> for AccountId {
    open spec fn obeys_from_spec() -> bool {
        true
    }

    open spec fn from_spec(bytes: [u8; 32]) -> AccountId {
        AccountId(bytes)
    }
}

/// Why a call was rejected. A rejected call changes nothing.
#[derive(Clone, Copy, PartialEq, Eq, Debug, Structural)]
pub enum Error {
    /// The payer holds fewer tokens than are to be moved.
    InsufficientBalance,
    /// The caller may move fewer tokens of the payer than are to be moved.
    InsufficientAllowance,
}

/// Tokens moved. Tokens that come from nobody were created.
#[derive(Clone, Copy, PartialEq, Eq, Debug)]
pub struct Transfer {
    pub from: Option<AccountId>,
    pub to: Option<AccountId>,
    pub value: Balance,
}

/// An owner allowed a spender to move some of its tokens.
#[derive(Clone, Copy, PartialEq, Eq, Debug)]
pub struct Approval {
    pub owner: AccountId,
    pub spender: AccountId,
    pub value: Balance,
}

/// The state of a token.
#[verifier::ext_equal]
pub struct Token {
    /// The name of the token.
    pub name: Seq<char>,
    /// How many tokens there are.
    pub total_supply: Balance,
    /// How many tokens each account holds.
    pub balances: Map<AccountId, Balance>,
    /// How many tokens of the first account the second may move.
    pub allowances: Map<(AccountId, AccountId), Balance>,
}

impl Token {
    /// The balances after `value` tokens moved from `from` to `to`.
    pub open spec fn moved(self, from: AccountId, to: AccountId, value: Balance) -> Map<
        AccountId,
        Balance,
    > {
        let debited = self.balances.insert(from, (self.balances[from] - value) as Balance);
        debited.insert(to, (debited[to] + value) as Balance)
    }

    /// Why `spender` may not move `value` tokens of `from`, if it may not.
    pub open spec fn transfer_from_error(
        self,
        spender: AccountId,
        from: AccountId,
        value: Balance,
    ) -> Option<Error> {
        if self.allowances[(from, spender)] < value {
            Some(Error::InsufficientAllowance)
        } else if self.balances[from] < value {
            Some(Error::InsufficientBalance)
        } else {
            None
        }
    }
}

/// The sum of the values of the items.
pub open spec fn total_of(items: Seq<(Seq<u8>, Balance)>) -> int
    decreases items.len(),
{
    if items.len() == 0 {
        0
    } else {
        total_of(items.drop_last()) + items.last().1
    }
}

/// No item is worth more than all of them together.
proof fn lemma_total_bounds(items: Seq<(Seq<u8>, Balance)>, at: int)
    requires
        0 <= at < items.len(),
    ensures
        0 <= items[at].1 <= total_of(items),
    decreases items.len(),
{
    lemma_total_nonnegative(items.drop_last());
    if at < items.len() - 1 {
        lemma_total_bounds(items.drop_last(), at);
    }
}

/// A sum of balances is never negative.
proof fn lemma_total_nonnegative(items: Seq<(Seq<u8>, Balance)>)
    ensures
        0 <= total_of(items),
    decreases items.len(),
{
    if items.len() > 0 {
        lemma_total_nonnegative(items.drop_last());
    }
}

/// Rewriting one value changes the sum by the difference.
proof fn lemma_total_update(items: Seq<(Seq<u8>, Balance)>, at: int, item: (Seq<u8>, Balance))
    requires
        0 <= at < items.len(),
    ensures
        total_of(items.update(at, item)) == total_of(items) - items[at].1 + item.1,
    decreases items.len(),
{
    let updated = items.update(at, item);
    if at == items.len() - 1 {
        assert(updated.drop_last() =~= items.drop_last());
    } else {
        assert(updated.drop_last() =~= items.drop_last().update(at, item));
        lemma_total_update(items.drop_last(), at, item);
    }
}

/// Appending an item adds its value to the sum.
proof fn lemma_total_push(items: Seq<(Seq<u8>, Balance)>, item: (Seq<u8>, Balance))
    ensures
        total_of(items.push(item)) == total_of(items) + item.1,
{
    assert(items.push(item).drop_last() =~= items);
}

/// The key under which the allowance of a spender on an owner is kept.
pub open spec fn pair_key(owner: AccountId, spender: AccountId) -> Seq<u8> {
    owner@ + spender@
}

/// Different pairs have different keys.
proof fn lemma_pair_key(first: (AccountId, AccountId), second: (AccountId, AccountId))
    ensures
        pair_key(first.0, first.1) == pair_key(second.0, second.1) <==> first == second,
{
    if pair_key(first.0, first.1) == pair_key(second.0, second.1) {
        let one = pair_key(first.0, first.1);
        let two = pair_key(second.0, second.1);
        assert forall|i: int| 0 <= i < 32 implies first.0.0[i] == second.0.0[i] by {
            assert(one[i] == first.0@[i] && two[i] == second.0@[i]);
        }
        assert forall|i: int| 0 <= i < 32 implies first.1.0[i] == second.1.0[i] by {
            assert(one[i + 32] == first.1@[i] && two[i + 32] == second.1@[i]);
        }
        assert(first.0.0 =~= second.0.0);
        assert(first.1.0 =~= second.1.0);
    }
}

/// Different accounts have different bytes.
proof fn lemma_account_key(first: AccountId, second: AccountId)
    ensures
        first@ == second@ <==> first == second,
{
    if first@ == second@ {
        assert forall|i: int| 0 <= i < 32 implies first.0[i] == second.0[i] by {
            assert(first@[i] == second@[i]);
        }
        assert(first.0 =~= second.0);
    }
}

/// The value under `key`, or zero if there is none.
pub open spec fn amount_at(amounts: Map<Seq<u8>, Balance>, key: Seq<u8>) -> Balance {
    if amounts.contains_key(key) {
        amounts[key]
    } else {
        0
    }
}

/// The bytes of an account.
fn account_key(id: &AccountId) -> (key: Vec<u8>)
    ensures
        key@ == id@,
{
    let mut key: Vec<u8> = Vec::new();
    let mut i: usize = 0;
    while i < 32
        invariant
            i <= 32,
            key@.len() == i,
            forall|j: int| 0 <= j < i ==> key@[j] == id@[j],
        decreases 32 - i,
    {
        key.push(id.0[i]);
        i = i + 1;
    }
    assert(key@ =~= id@);
    key
}

/// The bytes of an owner followed by those of a spender.
fn allowance_key(owner: &AccountId, spender: &AccountId) -> (key: Vec<u8>)
    ensures
        key@ == pair_key(*owner, *spender),
{
    let mut key = account_key(owner);
    let mut rest = account_key(spender);
    key.append(&mut rest);
    key
}

/// A fungible token.
pub struct Erc20 {
    name: String,
    total_supply: Balance,
    balances: Table<Balance>,
    allowances: Table<Balance>,
}

impl View for Erc20 {
    type V = Token;

    closed spec fn view(&self) -> Token {
        Token {
            name: self.name@,
            total_supply: self.total_supply,
            balances: Map::total(|owner: AccountId| amount_at(self.balances@, owner@)),
            allowances: Map::total(
                |pair: (AccountId, AccountId)|
                    amount_at(self.allowances@, pair_key(pair.0, pair.1)),
            ),
        }
    }
}

impl Erc20 {
    /// Both tables are well formed.
    spec fn tables_wf(&self) -> bool {
        self.balances.wf() && self.allowances.wf()
    }

    /// The token's invariant: the balances add up to the supply.
    pub closed spec fn wf(&self) -> bool {
        &&& self.tables_wf()
        &&& total_of(self.balances.items()) == self.total_supply
    }

    /// Conservation: no single account, and no two accounts together, hold
    /// more tokens than there are.
    pub proof fn law_within_supply(&self, first: AccountId, second: AccountId)
        requires
            self.wf(),
        ensures
            self@.balances[first] <= self@.total_supply,
            first != second ==> self@.balances[first] + self@.balances[second]
                <= self@.total_supply,
    {
        let items = self.balances.items();
        self.balances.lemma_items();
        lemma_total_nonnegative(items);
        lemma_account_key(first, second);
        if self.balances@.contains_key(first@) {
            let i = place(items, first@);
            lemma_total_bounds(items, i);
            if first != second && self.balances@.contains_key(second@) {
                let j = place(items, second@);
                lemma_total_update(items, i, (first@, 0));
                lemma_total_bounds(items.update(i, (first@, 0)), j);
            }
        } else if self.balances@.contains_key(second@) {
            lemma_total_bounds(items, place(items, second@));
        }
    }

    /// Creates a token named `token_name` with `initial_supply` tokens, all
    /// of them held by `caller`. Returns the token and the record of the
    /// tokens coming into being.
    pub fn new(caller: AccountId, token_name: String, initial_supply: Balance) -> (created: (
        Erc20,
        Transfer,
    ))
        ensures
            created.0.wf(),
            created.0@ == (Token {
                name: token_name@,
                total_supply: initial_supply,
                balances: Map::total(|owner: AccountId| 0u128).insert(caller, initial_supply),
                allowances: Map::total(|pair: (AccountId, AccountId)| 0u128),
            }),
            created.1 == (Transfer { from: None, to: Some(caller), value: initial_supply }),
    {
        let mut contract = Erc20 {
            name: token_name,
            total_supply: initial_supply,
            balances: Table::new(),
            allowances: Table::new(),
        };
        contract.balances.insert(account_key(&caller), initial_supply);
        proof {
            lemma_total_push(Seq::empty(), (caller@, initial_supply));
            assert forall|owner: AccountId| #[trigger]
                contract@.balances[owner] == Map::total(|owner: AccountId| 0u128).insert(
                    caller,
                    initial_supply,
                )[owner] by {
                lemma_account_key(owner, caller);
            }
            assert(contract@.balances =~= Map::total(|owner: AccountId| 0u128).insert(
                caller,
                initial_supply,
            ));
            assert(contract@.allowances =~= Map::total(|pair: (AccountId, AccountId)| 0u128));
        }
        (contract, Transfer { from: None, to: Some(caller), value: initial_supply })
    }

    /// The name of the token.
    pub fn get_name(&self) -> (name: String)
        ensures
            name@ == self@.name,
    {
        self.name.clone()
    }

    /// How many tokens there are.
    pub fn total_supply(&self) -> (supply: Balance)
        ensures
            supply == self@.total_supply,
    {
        self.total_supply
    }

    /// How many tokens `owner` holds.
    pub fn balance_of(&self, owner: AccountId) -> (balance: Balance)
        requires
            self.wf(),
        ensures
            balance == self@.balances[owner],
    {
        self.balance_of_impl(&owner)
    }

    fn balance_of_impl(&self, owner: &AccountId) -> (balance: Balance)
        requires
            self.tables_wf(),
        ensures
            balance == self@.balances[*owner],
    {
        match self.balances.get(&account_key(owner)) {
            Some(balance) => balance,
            None => 0,
        }
    }

    /// How many tokens of `owner` the account `spender` may move.
    pub fn allowance(&self, owner: AccountId, spender: AccountId) -> (allowance: Balance)
        requires
            self.wf(),
        ensures
            allowance == self@.allowances[(owner, spender)],
    {
        self.allowance_impl(&owner, &spender)
    }

    fn allowance_impl(&self, owner: &AccountId, spender: &AccountId) -> (allowance: Balance)
        requires
            self.tables_wf(),
        ensures
            allowance == self@.allowances[(*owner, *spender)],
    {
        match self.allowances.get(&allowance_key(owner, spender)) {
            Some(allowance) => allowance,
            None => 0,
        }
    }

    /// Moves `value` tokens from `caller` to `to`. Rejected, changing
    /// nothing, when `caller` holds fewer than `value` tokens.
    pub fn transfer(&mut self, caller: AccountId, to: AccountId, value: Balance) -> (res: Result<
        Transfer,
        Error,
    >)
        requires
            old(self).wf(),
        ensures
            final(self).wf(),
            match res {
                Ok(moved) => {
                    &&& old(self)@.balances[caller] >= value
                    &&& moved == (Transfer { from: Some(caller), to: Some(to), value })
                    &&& final(self)@ == (Token {
                        balances: old(self)@.moved(caller, to, value),
                        ..old(self)@
                    })
                },
                Err(e) => {
                    &&& old(self)@.balances[caller] < value
                    &&& e == Error::InsufficientBalance
                    &&& final(self)@ == old(self)@
                },
            },
    {
        self.transfer_from_to(&caller, &to, value)
    }

    /// Moves `value` tokens from `from` to `to`, if `from` holds that many.
    fn transfer_from_to(&mut self, from: &AccountId, to: &AccountId, value: Balance) -> (res:
        Result<Transfer, Error>)
        requires
            old(self).wf(),
        ensures
            final(self).wf(),
            final(self).allowances == old(self).allowances,
            match res {
                Ok(moved) => {
                    &&& old(self)@.balances[*from] >= value
                    &&& moved == (Transfer { from: Some(*from), to: Some(*to), value })
                    &&& final(self)@ == (Token {
                        balances: old(self)@.moved(*from, *to, value),
                        ..old(self)@
                    })
                },
                Err(e) => {
                    &&& old(self)@.balances[*from] < value
                    &&& e == Error::InsufficientBalance
                    &&& final(self)@ == old(self)@
                },
            },
    {
        let from_balance = self.balance_of_impl(from);
        if from_balance < value {
            return Err(Error::InsufficientBalance);
        }
        proof {
            old(self).balances.lemma_items();
        }
        self.balances.insert(account_key(from), from_balance - value);
        let ghost debited = self.balances.items();
        proof {
            let items = old(self).balances.items();
            if old(self).balances@.contains_key(from@) {
                lemma_total_update(
                    items,
                    place(items, from@),
                    (from@, (from_balance - value) as u128),
                );
            } else {
                lemma_total_push(items, (from@, (from_balance - value) as u128));
            }
            assert(total_of(debited) == self.total_supply - value);
            self.balances.lemma_items();
            lemma_total_nonnegative(debited);
            if self.balances@.contains_key(to@) {
                lemma_total_bounds(debited, place(debited, to@));
            }
        }
        let to_balance = self.balance_of_impl(to);
        let ghost held = self.balances@.contains_key(to@);
        self.balances.insert(account_key(to), to_balance + value);
        proof {
            if held {
                lemma_total_update(
                    debited,
                    place(debited, to@),
                    (to@, (to_balance + value) as u128),
                );
            } else {
                lemma_total_push(debited, (to@, (to_balance + value) as u128));
            }
            let after = old(self)@.moved(*from, *to, value);
            assert forall|owner: AccountId| #[trigger] self@.balances[owner] == after[owner] by {
                lemma_account_key(owner, *from);
                lemma_account_key(owner, *to);
            }
            assert(self@.balances =~= after);
            assert(self@.allowances =~= old(self)@.allowances);
        }
        Ok(Transfer { from: Some(*from), to: Some(*to), value })
    }

    /// Allows `spender` to move up to `value` tokens of `caller`, in place of
    /// whatever it was allowed before.
    pub fn approve(&mut self, caller: AccountId, spender: AccountId, value: Balance) -> (res:
        Result<Approval, Error>)
        requires
            old(self).wf(),
        ensures
            final(self).wf(),
            res == Ok::<Approval, Error>(Approval { owner: caller, spender, value }),
            final(self)@ == (Token {
                allowances: old(self)@.allowances.insert((caller, spender), value),
                ..old(self)@
            }),
    {
        self.set_allowance(&caller, &spender, value);
        Ok(Approval { owner: caller, spender, value })
    }

    /// Records that `spender` may move `value` tokens of `owner`.
    fn set_allowance(&mut self, owner: &AccountId, spender: &AccountId, value: Balance)
        requires
            old(self).wf(),
        ensures
            final(self).wf(),
            final(self)@ == (Token {
                allowances: old(self)@.allowances.insert((*owner, *spender), value),
                ..old(self)@
            }),
    {
        self.allowances.insert(allowance_key(owner, spender), value);
        proof {
            let after = old(self)@.allowances.insert((*owner, *spender), value);
            assert forall|pair: (AccountId, AccountId)| #[trigger]
                self@.allowances[pair] == after[pair] by {
                lemma_pair_key(pair, (*owner, *spender));
            }
            assert(self@.allowances =~= after);
            assert(self@.balances =~= old(self)@.balances);
        }
    }

    /// Moves `value` tokens from `from` to `to` on behalf of `from`, and
    /// takes them off what `caller` may still move. Rejected, changing
    /// nothing, when `caller` may move fewer than `value` tokens of `from`,
    /// or when `from` holds fewer than `value` tokens, in that order.
    pub fn transfer_from(
        &mut self,
        caller: AccountId,
        from: AccountId,
        to: AccountId,
        value: Balance,
    ) -> (res: Result<Transfer, Error>)
        requires
            old(self).wf(),
        ensures
            final(self).wf(),
            match old(self)@.transfer_from_error(caller, from, value) {
                Some(e) => res == Err::<Transfer, Error>(e) && final(self)@ == old(self)@,
                None => {
                    &&& res == Ok::<Transfer, Error>(
                        Transfer { from: Some(from), to: Some(to), value },
                    )
                    &&& final(self)@ == (Token {
                        balances: old(self)@.moved(from, to, value),
                        allowances: old(self)@.allowances.insert(
                            (from, caller),
                            (old(self)@.allowances[(from, caller)] - value) as Balance,
                        ),
                        ..old(self)@
                    })
                },
            },
    {
        let allowance = self.allowance_impl(&from, &caller);
        if allowance < value {
            return Err(Error::InsufficientAllowance);
        }
        let moved = match self.transfer_from_to(&from, &to, value) {
            Ok(moved) => moved,
            Err(e) => {
                return Err(e);
            },
        };
        self.set_allowance(&from, &caller, allowance - value);
        Ok(moved)
    }
}

} // verus!
