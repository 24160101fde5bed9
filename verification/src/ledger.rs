//! The balance ledger: spendable and reserved funds per account.
//!
//! Funds are either free (spendable) or reserved (held in escrow). Reserving
//! moves funds from free to reserved, unreserving moves them back, and a
//! transfer moves free funds between two accounts. An operation that fails
//! leaves the ledger as it was.

use crate::system::AccountId;
use std::collections::HashMap;
use vstd::prelude::*;

verus! {

broadcast use vstd::std_specs::hash::group_hash_axioms;

/// An amount of funds.
pub type Balance = u128;

/// What one account holds.
#[derive(Clone, Copy, PartialEq, Eq, Debug, Structural)]
pub struct AccountData {
    /// Funds that can be spent or reserved.
    pub free: Balance,
    /// Funds held in escrow.
    pub reserved: Balance,
}

impl AccountData {
    /// Everything the account holds, free and reserved.
    pub open spec fn total(self) -> int {
        self.free + self.reserved
    }
}

/// The holdings of every account. An account that never received funds
/// holds nothing.
pub type Accounts = Map<AccountId, AccountData>;

/// A ledger in which nobody holds anything.
pub open spec fn no_accounts() -> Accounts {
    Map::total(|who: AccountId| AccountData { free: 0, reserved: 0 })
}

/// Every account is present and holds no more than a `Balance` can count.
pub open spec fn accounts_wf(accounts: Accounts) -> bool {
    forall|who: AccountId|
        #![trigger accounts[who]]
        #![trigger accounts.contains_key(who)]
        accounts.contains_key(who) && accounts[who].total() <= Balance::MAX
}

/// `who` has `amount` of free funds to put in escrow.
pub open spec fn can_reserve(accounts: Accounts, who: AccountId, amount: Balance) -> bool {
    accounts[who].free >= amount
}

/// The holdings after `amount` moved from free to reserved for `who`.
pub open spec fn reserved_in(accounts: Accounts, who: AccountId, amount: Balance) -> Accounts {
    accounts.insert(
        who,
        AccountData {
            free: (accounts[who].free - amount) as Balance,
            reserved: (accounts[who].reserved + amount) as Balance,
        },
    )
}

/// How much of `amount` can actually leave the escrow of `who`.
pub open spec fn releasable(accounts: Accounts, who: AccountId, amount: Balance) -> Balance {
    if amount <= accounts[who].reserved {
        amount
    } else {
        accounts[who].reserved
    }
}

/// The holdings after up to `amount` moved from reserved back to free for `who`.
pub open spec fn unreserved_in(accounts: Accounts, who: AccountId, amount: Balance) -> Accounts {
    let moved = releasable(accounts, who, amount);
    accounts.insert(
        who,
        AccountData {
            free: (accounts[who].free + moved) as Balance,
            reserved: (accounts[who].reserved - moved) as Balance,
        },
    )
}

/// Whether a transfer of `amount` from `from` to `to` goes through.
///
/// The payer needs `amount` of free funds. Between two different accounts,
/// the payee must end up holding at least `minimum` (an account below it
/// would be reaped) and no more than a `Balance` can count, and if
/// `keep_alive` is set the payer must be left with at least `minimum` too.
pub open spec fn can_transfer(
    accounts: Accounts,
    minimum: Balance,
    from: AccountId,
    to: AccountId,
    amount: Balance,
    keep_alive: bool,
) -> bool {
    &&& accounts[from].free >= amount
    &&& from != to ==> {
        &&& minimum <= accounts[to].total() + amount <= Balance::MAX
        &&& keep_alive ==> accounts[from].total() - amount >= minimum
    }
}

/// The holdings after `amount` of free funds moved from `from` to `to`.
pub open spec fn transferred_in(
    accounts: Accounts,
    from: AccountId,
    to: AccountId,
    amount: Balance,
) -> Accounts {
    if from == to {
        accounts
    } else {
        accounts.insert(
            from,
            AccountData {
                free: (accounts[from].free - amount) as Balance,
                reserved: accounts[from].reserved,
            },
        ).insert(
            to,
            AccountData {
                free: (accounts[to].free + amount) as Balance,
                reserved: accounts[to].reserved,
            },
        )
    }
}

/// Spendable and reserved funds per account.
pub struct BalanceLedger {
    existential_deposit: Balance,
    accounts: HashMap<AccountId, AccountData>,
}

impl BalanceLedger {
    /// The holdings of every account.
    pub closed spec fn accounts(&self) -> Accounts {
        Map::total(
            |who: AccountId|
                if self.accounts@.contains_key(who) {
                    self.accounts@[who]
                } else {
                    AccountData { free: 0, reserved: 0 }
                },
        )
    }

    /// The least total an account may hold after receiving a transfer.
    pub closed spec fn minimum(&self) -> Balance {
        self.existential_deposit
    }

    /// The ledger's invariant: no account holds more than a `Balance` can count.
    pub closed spec fn wf(&self) -> bool {
        forall|who: AccountId| #[trigger]
            self.accounts@.contains_key(who) ==> self.accounts@[who].total() <= Balance::MAX
    }

    /// A well-formed ledger has well-formed holdings.
    pub proof fn lemma_wf(&self)
        requires
            self.wf(),
        ensures
            accounts_wf(self.accounts()),
    {
    }

    /// A ledger in which nobody holds anything.
    pub fn new(existential_deposit: Balance) -> (ledger: BalanceLedger)
        ensures
            ledger.wf(),
            ledger.minimum() == existential_deposit,
            ledger.accounts() == no_accounts(),
    {
        let ledger = BalanceLedger { existential_deposit, accounts: HashMap::new() };
        assert(ledger.accounts() =~= no_accounts());
        ledger
    }

    /// What `who` holds.
    pub fn account(&self, who: AccountId) -> (data: AccountData)
        ensures
            data == self.accounts()[who],
    {
        match self.accounts.get(&who) {
            Some(data) => *data,
            None => AccountData { free: 0, reserved: 0 },
        }
    }

    /// The least total an account may hold after receiving a transfer.
    pub fn existential_deposit(&self) -> (minimum: Balance)
        ensures
            minimum == self.minimum(),
    {
        self.existential_deposit
    }

    /// The free funds of `who`.
    pub fn spendable_balance(&self, who: AccountId) -> (amount: Balance)
        ensures
            amount == self.accounts()[who].free,
    {
        self.account(who).free
    }

    /// The funds of `who` held in escrow.
    pub fn reserved_balance(&self, who: AccountId) -> (amount: Balance)
        ensures
            amount == self.accounts()[who].reserved,
    {
        self.account(who).reserved
    }

    /// Credits `amount` of free funds to `who`. Fails, changing nothing, when
    /// the account would hold more than a `Balance` can count.
    pub fn endow(&mut self, who: AccountId, amount: Balance) -> (res: Result<(), ()>)
        requires
            old(self).wf(),
        ensures
            final(self).wf(),
            final(self).minimum() == old(self).minimum(),
            res.is_ok() <==> old(self).accounts()[who].total() + amount <= Balance::MAX,
            res.is_ok() ==> final(self).accounts() == old(self).accounts().insert(
                who,
                AccountData {
                    free: (old(self).accounts()[who].free + amount) as Balance,
                    reserved: old(self).accounts()[who].reserved,
                },
            ),
            res.is_err() ==> final(self).accounts() == old(self).accounts(),
    {
        let data = self.account(who);
        if data.free > Balance::MAX - amount || data.reserved > Balance::MAX - amount - data.free {
            return Err(());
        }
        let updated = AccountData { free: data.free + amount, reserved: data.reserved };
        self.accounts.insert(who, updated);
        assert(self.accounts() =~= old(self).accounts().insert(who, updated));
        Ok(())
    }

    /// Whether `who` has `amount` of free funds to put in escrow.
    pub fn can_reserve(&self, who: AccountId, amount: Balance) -> (yes: bool)
        ensures
            yes == can_reserve(self.accounts(), who, amount),
    {
        self.account(who).free >= amount
    }

    /// Moves `amount` from the free funds of `who` into escrow. Fails,
    /// changing nothing, when `who` has less than `amount` free.
    pub fn reserve(&mut self, who: AccountId, amount: Balance) -> (res: Result<(), ()>)
        requires
            old(self).wf(),
        ensures
            final(self).wf(),
            final(self).minimum() == old(self).minimum(),
            res.is_ok() <==> can_reserve(old(self).accounts(), who, amount),
            res.is_ok() ==> final(self).accounts() == reserved_in(
                old(self).accounts(),
                who,
                amount,
            ),
            res.is_err() ==> final(self).accounts() == old(self).accounts(),
    {
        let data = self.account(who);
        if data.free < amount {
            return Err(());
        }
        let updated = AccountData { free: data.free - amount, reserved: data.reserved + amount };
        self.accounts.insert(who, updated);
        assert(self.accounts() =~= reserved_in(old(self).accounts(), who, amount));
        Ok(())
    }

    /// Moves up to `amount` out of the escrow of `who` back into its free
    /// funds: all of `amount` if that much is reserved, else whatever is.
    pub fn unreserve(&mut self, who: AccountId, amount: Balance)
        requires
            old(self).wf(),
        ensures
            final(self).wf(),
            final(self).minimum() == old(self).minimum(),
            final(self).accounts() == unreserved_in(old(self).accounts(), who, amount),
    {
        let data = self.account(who);
        let moved = if amount <= data.reserved {
            amount
        } else {
            data.reserved
        };
        let updated = AccountData { free: data.free + moved, reserved: data.reserved - moved };
        self.accounts.insert(who, updated);
        assert(self.accounts() =~= unreserved_in(old(self).accounts(), who, amount));
    }

    /// Whether a transfer of `amount` from `from` to `to` would go through.
    pub fn can_transfer(
        &self,
        from: AccountId,
        to: AccountId,
        amount: Balance,
        keep_alive: bool,
    ) -> (yes: bool)
        requires
            self.wf(),
        ensures
            yes == can_transfer(self.accounts(), self.minimum(), from, to, amount, keep_alive),
    {
        let payer = self.account(from);
        if payer.free < amount {
            return false;
        }
        if from == to {
            return true;
        }
        let payee = self.account(to);
        let payee_total = payee.free + payee.reserved;
        if payee_total > Balance::MAX - amount {
            return false;
        }
        if payee_total + amount < self.existential_deposit {
            return false;
        }
        let payer_left = payer.free - amount + payer.reserved;
        !keep_alive || payer_left >= self.existential_deposit
    }

    /// Moves `amount` of free funds from `from` to `to`. Fails, changing
    /// nothing, when the payer lacks the funds, when the payee would be left
    /// below the existential deposit or above what a `Balance` can count, or
    /// when `keep_alive` is set and the payer would be left below the
    /// existential deposit.
    pub fn transfer(
        &mut self,
        from: AccountId,
        to: AccountId,
        amount: Balance,
        keep_alive: bool,
    ) -> (res: Result<(), ()>)
        requires
            old(self).wf(),
        ensures
            final(self).wf(),
            final(self).minimum() == old(self).minimum(),
            res.is_ok() <==> can_transfer(
                old(self).accounts(),
                old(self).minimum(),
                from,
                to,
                amount,
                keep_alive,
            ),
            res.is_ok() ==> final(self).accounts() == transferred_in(
                old(self).accounts(),
                from,
                to,
                amount,
            ),
            res.is_err() ==> final(self).accounts() == old(self).accounts(),
    {
        if !self.can_transfer(from, to, amount, keep_alive) {
            return Err(());
        }
        if from != to {
            let payer = self.account(from);
            let payee = self.account(to);
            self.accounts.insert(
                from,
                AccountData { free: payer.free - amount, reserved: payer.reserved },
            );
            self.accounts.insert(
                to,
                AccountData { free: payee.free + amount, reserved: payee.reserved },
            );
            assert(self.accounts() =~= transferred_in(old(self).accounts(), from, to, amount));
        }
        Ok(())
    }
}

} // verus!
