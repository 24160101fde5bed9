//! What holds of the registry's model whatever calls are made: every
//! operation that goes through keeps the tables consistent.

use crate::kitties::model::{child_genome, without, Error, Event, KittyIndex, State, Step};
use crate::ledger::{accounts_wf, can_reserve, can_transfer, Accounts, Balance};
use crate::randomness::selector;
use crate::system::{AccountId, ErrorKind, Origin};
use vstd::prelude::*;

verus! {

/// Taking an item out of a sequence without repeats removes that item and
/// nothing else, and leaves no repeats.
pub proof fn lemma_without(items: Seq<KittyIndex>, item: KittyIndex)
    requires
        items.no_duplicates(),
        items.contains(item),
    ensures
        without(items, item).len() == items.len() - 1,
        without(items, item).no_duplicates(),
        forall|other: KittyIndex|
            #![trigger without(items, item).contains(other)]
            without(items, item).contains(other) <==> (items.contains(other) && other != item),
{
    let at = items.index_of(item);
    let rest = without(items, item);
    let last = items.len() - 1;
    assert(0 <= at < items.len() && items[at] == item);
    assert forall|other: KittyIndex|
        #![trigger rest.contains(other)]
        rest.contains(other) <==> (items.contains(other) && other != item) by {
        if rest.contains(other) {
            let i = choose|i: int| 0 <= i < rest.len() && rest[i] == other;
            if i == at {
                assert(items[last] == other);
            } else {
                assert(items[i] == other);
            }
        }
        if items.contains(other) && other != item {
            let j = choose|j: int| 0 <= j < items.len() && items[j] == other;
            if j == last {
                assert(rest[at] == other);
            } else {
                assert(rest[j] == other);
            }
        }
    }
}

/// Appending an item that is not yet there adds that item and nothing else,
/// and leaves no repeats.
pub proof fn lemma_push(items: Seq<KittyIndex>, item: KittyIndex)
    requires
        items.no_duplicates(),
        !items.contains(item),
    ensures
        items.push(item).no_duplicates(),
        forall|other: KittyIndex|
            #![trigger items.push(item).contains(other)]
            items.push(item).contains(other) <==> (items.contains(other) || other == item),
{
    let grown = items.push(item);
    assert forall|other: KittyIndex|
        #![trigger grown.contains(other)]
        grown.contains(other) <==> (items.contains(other) || other == item) by {
        if grown.contains(other) {
            let i = choose|i: int| 0 <= i < grown.len() && grown[i] == other;
            if i < items.len() {
                assert(items[i] == other);
            }
        }
        if items.contains(other) {
            let j = choose|j: int| 0 <= j < items.len() && items[j] == other;
            assert(grown[j] == other);
        }
        if other == item {
            assert(grown[items.len() as int] == other);
        }
    }
    assert forall|i: int, j: int| 0 <= i < grown.len() && 0 <= j < grown.len() && i != j implies grown[i]
        != grown[j] by {
        if i == items.len() {
            assert(items[j] == grown[j]);
        } else if j == items.len() {
            assert(items[i] == grown[i]);
        }
    }
}

/// One more kitty costs one more deposit.
pub proof fn lemma_deposit_step(deposit: Balance, owned: nat)
    ensures
        deposit * (owned + 1) == deposit * owned + deposit,
        0 <= deposit * owned,
{
    assert(deposit * (owned + 1) == deposit * owned + deposit) by (nonlinear_arith);
    assert(0 <= deposit * owned) by (nonlinear_arith);
}

/// The registry starts out consistent when nothing is in escrow.
pub proof fn lemma_initial_consistent(balances: Accounts, deposit: Balance, max_owned: u32)
    requires
        accounts_wf(balances),
        forall|who: AccountId| (#[trigger] balances[who]).reserved == 0,
    ensures
        State::initial(balances).consistent(deposit, max_owned),
{
    let s = State::initial(balances);
    assert forall|who: AccountId| (#[trigger] s.balances[who]).reserved == deposit
        * s.owned_kitty[who].len() by {
        assert(deposit * 0 == 0) by (nonlinear_arith);
    }
    assert forall|who: AccountId, id: KittyIndex|
        #![trigger s.owned_kitty[who].contains(id)]
        !s.owned_kitty[who].contains(id) by {}
}

/// Minting keeps the tables consistent.
pub proof fn lemma_minted_consistent(
    s: State,
    deposit: Balance,
    max_owned: u32,
    owner: AccountId,
    genome: Seq<u8>,
)
    requires
        s.consistent(deposit, max_owned),
        s.mint_error(deposit, max_owned, owner) is None,
        genome.len() == 16,
    ensures
        s.minted(deposit, owner, genome).consistent(deposit, max_owned),
{
    let t = s.minted(deposit, owner, genome);
    let id = s.kitty_count;
    assert(!s.kitty_owned_by.contains_key(id));
    assert(!s.owned_kitty[owner].contains(id));
    lemma_push(s.owned_kitty[owner], id);
    lemma_deposit_step(deposit, s.owned_kitty[owner].len());
    assert(s.balances[owner].total() <= Balance::MAX);
    assert(accounts_wf(t.balances)) by {
        assert forall|who: AccountId|
            #![trigger t.balances[who]]
            #![trigger t.balances.contains_key(who)]
            t.balances.contains_key(who) && t.balances[who].total() <= Balance::MAX by {
            assert(s.balances.contains_key(who) && s.balances[who].total() <= Balance::MAX);
        }
    }
    assert(t.ids_issued_in_order());
    assert(t.ownership_bijective()) by {
        assert forall|who: AccountId| (#[trigger] t.owned_kitty[who]).no_duplicates() by {
            assert(s.owned_kitty[who].no_duplicates());
        }
        assert forall|who: AccountId, other: KittyIndex|
            #![trigger t.owned_kitty[who].contains(other)]
            t.owned_kitty[who].contains(other) <==> (t.kitty_owned_by.contains_key(other)
                && t.kitty_owned_by[other] == who) by {
            assert(s.owned_kitty[who].contains(other) <==> (s.kitty_owned_by.contains_key(other)
                && s.kitty_owned_by[other] == who));
            if who == owner {
                assert(t.owned_kitty[who] == s.owned_kitty[owner].push(id));
            } else {
                assert(t.owned_kitty[who] == s.owned_kitty[who]);
                assert(s.owned_kitty[who].contains(id) <==> (s.kitty_owned_by.contains_key(id)
                    && s.kitty_owned_by[id] == who));
            }
        }
    }
    assert(t.within_capacity(max_owned)) by {
        assert forall|who: AccountId| (#[trigger] t.owned_kitty[who]).len() <= max_owned by {
            assert(s.owned_kitty[who].len() <= max_owned);
        }
    }
    assert(t.escrow_conserved(deposit)) by {
        assert forall|who: AccountId| (#[trigger] t.balances[who]).reserved == deposit
            * t.owned_kitty[who].len() by {
            assert(s.balances[who].reserved == deposit * s.owned_kitty[who].len());
        }
    }
}

/// Handing a kitty over keeps every kitty with exactly one owner, and changes
/// the number of kitties of the two accounts involved and of nobody else.
pub proof fn lemma_handed_over(
    s: State,
    max_owned: u32,
    id: KittyIndex,
    from: AccountId,
    to: AccountId,
)
    requires
        s.ids_issued_in_order(),
        s.ownership_bijective(),
        s.within_capacity(max_owned),
        s.kitty_owned_by.contains_key(id),
        s.kitty_owned_by[id] == from,
        to != from ==> s.owned_kitty[to].len() < max_owned,
    ensures
        s.handed_over(id, from, to).ids_issued_in_order(),
        s.handed_over(id, from, to).ownership_bijective(),
        s.handed_over(id, from, to).within_capacity(max_owned),
        s.owned_kitty[from].len() >= 1,
        to == from ==> s.handed_over(id, from, to).owned_kitty[from].len()
            == s.owned_kitty[from].len(),
        to != from ==> s.handed_over(id, from, to).owned_kitty[from].len()
            == s.owned_kitty[from].len() - 1,
        to != from ==> s.handed_over(id, from, to).owned_kitty[to].len() == s.owned_kitty[to].len()
            + 1,
        forall|who: AccountId|
            who != from && who != to ==> #[trigger] s.handed_over(id, from, to).owned_kitty[who]
                == s.owned_kitty[who],
{
    let t = s.handed_over(id, from, to);
    let left = without(s.owned_kitty[from], id);
    assert(s.owned_kitty[from].contains(id));
    lemma_without(s.owned_kitty[from], id);
    assert(!left.contains(id));
    if to == from {
        lemma_push(left, id);
    } else {
        assert(s.owned_kitty[to].contains(id) <==> (s.kitty_owned_by.contains_key(id)
            && s.kitty_owned_by[id] == to));
        lemma_push(s.owned_kitty[to], id);
    }
    assert(t.ids_issued_in_order()) by {
        assert forall|other: KittyIndex| #[trigger]
            t.kitty_owned_by.contains_key(other) <==> other < t.kitty_count by {
            assert(s.kitty_owned_by.contains_key(other) <==> other < s.kitty_count);
        }
    }
    assert(t.ownership_bijective()) by {
        assert forall|who: AccountId| (#[trigger] t.owned_kitty[who]).no_duplicates() by {
            assert(s.owned_kitty[who].no_duplicates());
        }
        assert forall|who: AccountId, other: KittyIndex|
            #![trigger t.owned_kitty[who].contains(other)]
            t.owned_kitty[who].contains(other) <==> (t.kitty_owned_by.contains_key(other)
                && t.kitty_owned_by[other] == who) by {
            assert(s.owned_kitty[who].contains(other) <==> (s.kitty_owned_by.contains_key(other)
                && s.kitty_owned_by[other] == who));
            assert(s.owned_kitty[who].contains(id) <==> (s.kitty_owned_by.contains_key(id)
                && s.kitty_owned_by[id] == who));
            if who == to {
                if to == from {
                    assert(t.owned_kitty[who] == left.push(id));
                    assert(left.contains(other) <==> (s.owned_kitty[from].contains(other) && other
                        != id));
                } else {
                    assert(t.owned_kitty[who] == s.owned_kitty[to].push(id));
                }
            } else if who == from {
                assert(t.owned_kitty[who] == left);
                assert(left.contains(other) <==> (s.owned_kitty[from].contains(other) && other
                    != id));
            } else {
                assert(t.owned_kitty[who] == s.owned_kitty[who]);
            }
        }
    }
    assert(t.within_capacity(max_owned)) by {
        assert forall|who: AccountId| (#[trigger] t.owned_kitty[who]).len() <= max_owned by {
            assert(s.owned_kitty[who].len() <= max_owned);
        }
    }
}

/// Moving the deposit along with a kitty keeps the holdings well formed,
/// leaves every total as it was, and moves exactly one deposit of escrow
/// from the old owner to the new one.
pub proof fn lemma_deposit_swapped(s: State, deposit: Balance, from: AccountId, to: AccountId)
    requires
        accounts_wf(s.balances),
        can_reserve(s.balances, to, deposit),
        s.balances[from].reserved >= deposit,
    ensures
        accounts_wf(s.deposit_swapped(deposit, from, to)),
        forall|who: AccountId|
            (#[trigger] s.deposit_swapped(deposit, from, to)[who]).total()
                == s.balances[who].total(),
        forall|who: AccountId|
            who != from && who != to ==> #[trigger] s.deposit_swapped(deposit, from, to)[who]
                == s.balances[who],
        to == from ==> s.deposit_swapped(deposit, from, to)[from] == s.balances[from],
        to != from ==> s.deposit_swapped(deposit, from, to)[from].reserved
            == s.balances[from].reserved - deposit,
        to != from ==> s.deposit_swapped(deposit, from, to)[to].reserved
            == s.balances[to].reserved + deposit,
        to != from ==> s.deposit_swapped(deposit, from, to)[from].free == s.balances[from].free
            + deposit,
        to != from ==> s.deposit_swapped(deposit, from, to)[to].free == s.balances[to].free
            - deposit,
{
    let swapped = s.deposit_swapped(deposit, from, to);
    assert(s.balances.contains_key(to) && s.balances[to].total() <= Balance::MAX);
    assert(s.balances.contains_key(from) && s.balances[from].total() <= Balance::MAX);
    assert forall|who: AccountId|
        #![trigger swapped[who]]
        #![trigger swapped.contains_key(who)]
        swapped.contains_key(who) && swapped[who].total() == s.balances[who].total()
            && swapped[who].total() <= Balance::MAX by {
        assert(s.balances.contains_key(who) && s.balances[who].total() <= Balance::MAX);
    }
}

/// A transfer keeps the tables consistent.
pub proof fn lemma_transferred_consistent(
    s: State,
    deposit: Balance,
    max_owned: u32,
    sender: AccountId,
    id: KittyIndex,
    to: AccountId,
)
    requires
        s.consistent(deposit, max_owned),
        s.transfer_error(deposit, max_owned, sender, id, to) is None,
    ensures
        s.transferred(deposit, sender, id, to).consistent(deposit, max_owned),
{
    let t = s.transferred(deposit, sender, id, to);
    let h = s.handed_over(id, sender, to);
    assert(s.kitty_owned_by.contains_key(id));
    lemma_handed_over(s, max_owned, id, sender, to);
    lemma_owner_has_deposit(s, deposit, sender);
    lemma_deposit_swapped(s, deposit, sender, to);
    assert(t.ids_issued_in_order());
    assert(t.ownership_bijective());
    assert(t.within_capacity(max_owned));
    assert forall|who: AccountId| (#[trigger] t.balances[who]).reserved == deposit
        * t.owned_kitty[who].len() by {
        assert(s.balances[who].reserved == deposit * s.owned_kitty[who].len());
        lemma_deposit_step(deposit, s.owned_kitty[who].len());
        if to != sender && who == sender {
            lemma_deposit_step(deposit, (s.owned_kitty[who].len() - 1) as nat);
        }
        if who != sender && who != to {
            assert(h.owned_kitty[who] == s.owned_kitty[who]);
        }
    }
}

/// Whoever owns a kitty has at least one deposit in escrow.
pub proof fn lemma_owner_has_deposit(s: State, deposit: Balance, owner: AccountId)
    requires
        s.escrow_conserved(deposit),
        s.owned_kitty[owner].len() >= 1,
    ensures
        s.balances[owner].reserved >= deposit,
{
    let owned = s.owned_kitty[owner].len();
    assert(s.balances[owner].reserved == deposit * owned);
    assert(deposit * owned >= deposit) by (nonlinear_arith)
        requires
            owned >= 1,
            deposit >= 0,
    ;
}

/// Listing a kitty, or taking it off the list, keeps the tables consistent.
pub proof fn lemma_listed_consistent(
    s: State,
    deposit: Balance,
    max_owned: u32,
    sender: AccountId,
    id: KittyIndex,
    price: Option<Balance>,
)
    requires
        s.consistent(deposit, max_owned),
        s.sell_error(sender, id) is None,
    ensures
        s.listed(id, price).consistent(deposit, max_owned),
{
    let t = s.listed(id, price);
    assert forall|other: KittyIndex| #[trigger]
        t.sale_list.contains_key(other) implies other < t.kitty_count by {
        if other != id {
            assert(s.sale_list.contains_key(other));
        }
    }
}

/// A purchase keeps the tables consistent.
pub proof fn lemma_bought_consistent(
    s: State,
    deposit: Balance,
    max_owned: u32,
    minimum: Balance,
    buyer: AccountId,
    id: KittyIndex,
)
    requires
        s.consistent(deposit, max_owned),
        s.buy_error(deposit, max_owned, minimum, buyer, id) is None,
    ensures
        s.bought(deposit, buyer, id).consistent(deposit, max_owned),
{
    let t = s.bought(deposit, buyer, id);
    let seller = s.kitty_owned_by[id];
    let h = s.handed_over(id, seller, buyer);
    let swapped = s.deposit_swapped(deposit, seller, buyer);
    lemma_handed_over(s, max_owned, id, seller, buyer);
    lemma_owner_has_deposit(s, deposit, seller);
    lemma_deposit_swapped(s, deposit, seller, buyer);
    assert(t.ids_issued_in_order()) by {
        assert forall|other: KittyIndex| #[trigger]
            t.sale_list.contains_key(other) implies other < t.kitty_count by {
            assert(s.sale_list.contains_key(other));
        }
    }
    assert(t.ownership_bijective());
    assert(t.within_capacity(max_owned));
    assert(accounts_wf(t.balances)) by {
        assert forall|who: AccountId|
            #![trigger t.balances[who]]
            #![trigger t.balances.contains_key(who)]
            t.balances.contains_key(who) && t.balances[who].total() <= Balance::MAX by {
            assert(swapped.contains_key(who) && swapped[who].total() <= Balance::MAX);
        }
    }
    assert forall|who: AccountId| (#[trigger] t.balances[who]).reserved == deposit
        * t.owned_kitty[who].len() by {
        assert(s.balances[who].reserved == deposit * s.owned_kitty[who].len());
        assert(t.balances[who].reserved == swapped[who].reserved);
        lemma_deposit_step(deposit, s.owned_kitty[who].len());
        if who == seller {
            lemma_deposit_step(deposit, (s.owned_kitty[who].len() - 1) as nat);
        }
        if who != seller && who != buyer {
            assert(h.owned_kitty[who] == s.owned_kitty[who]);
        }
    }
}

/// Crediting free funds to an account keeps the tables consistent.
pub proof fn lemma_endowed_consistent(
    s: State,
    deposit: Balance,
    max_owned: u32,
    minimum: Balance,
    who: AccountId,
    amount: Balance,
)
    requires
        s.consistent(deposit, max_owned),
    ensures
        s.after(deposit, max_owned, minimum, Step::Endow { who, amount }).consistent(
            deposit,
            max_owned,
        ),
{
    let t = s.after(deposit, max_owned, minimum, Step::Endow { who, amount });
    assert(accounts_wf(t.balances)) by {
        assert forall|other: AccountId|
            #![trigger t.balances[other]]
            #![trigger t.balances.contains_key(other)]
            t.balances.contains_key(other) && t.balances[other].total() <= Balance::MAX by {
            assert(s.balances.contains_key(other) && s.balances[other].total() <= Balance::MAX);
        }
    }
    assert forall|other: AccountId| (#[trigger] t.balances[other]).reserved == deposit
        * t.owned_kitty[other].len() by {
        assert(s.balances[other].reserved == deposit * s.owned_kitty[other].len());
    }
}

/// Every step keeps the tables consistent, whether it goes through or not.
pub proof fn law_step_consistent(
    s: State,
    deposit: Balance,
    max_owned: u32,
    minimum: Balance,
    step: Step,
)
    requires
        s.consistent(deposit, max_owned),
    ensures
        s.after(deposit, max_owned, minimum, step).consistent(deposit, max_owned),
{
    match step {
        Step::Endow { who, amount } => {
            lemma_endowed_consistent(s, deposit, max_owned, minimum, who, amount);
        },
        Step::Mint { owner, genome } => {
            if genome.len() == 16 && s.mint_error(deposit, max_owned, owner) is None {
                lemma_minted_consistent(s, deposit, max_owned, owner, genome);
            }
        },
        Step::Transfer { sender, id, to } => {
            if s.transfer_error(deposit, max_owned, sender, id, to) is None {
                lemma_transferred_consistent(s, deposit, max_owned, sender, id, to);
            }
        },
        Step::Sell { sender, id, price } => {
            if s.sell_error(sender, id) is None {
                lemma_listed_consistent(s, deposit, max_owned, sender, id, price);
            }
        },
        Step::Buy { buyer, id } => {
            if s.buy_error(deposit, max_owned, minimum, buyer, id) is None {
                lemma_bought_consistent(s, deposit, max_owned, minimum, buyer, id);
            }
        },
    }
}

/// After any sequence of steps from a start in which nothing is in escrow,
/// the tables are consistent: every account has exactly one deposit in escrow
/// per kitty it owns, every kitty is in exactly one account's sequence, and
/// no account is over capacity.
pub proof fn law_consistent_after_all(
    balances: Accounts,
    deposit: Balance,
    max_owned: u32,
    minimum: Balance,
    steps: Seq<Step>,
)
    requires
        accounts_wf(balances),
        forall|who: AccountId| (#[trigger] balances[who]).reserved == 0,
    ensures
        State::initial(balances).after_all(deposit, max_owned, minimum, steps).consistent(
            deposit,
            max_owned,
        ),
    decreases steps.len(),
{
    if steps.len() == 0 {
        lemma_initial_consistent(balances, deposit, max_owned);
    } else {
        law_consistent_after_all(balances, deposit, max_owned, minimum, steps.drop_last());
        law_step_consistent(
            State::initial(balances).after_all(deposit, max_owned, minimum, steps.drop_last()),
            deposit,
            max_owned,
            minimum,
            steps.last(),
        );
    }
}

/// What a call to create or breed a kitty leaves is what minting its kitty
/// leaves, and what a rejected call leaves is what was there.
pub proof fn law_minting_calls_are_steps(
    before: State,
    after: State,
    deposit: Balance,
    max_owned: u32,
    minimum: Balance,
    origin: Origin,
    parents: Option<(KittyIndex, KittyIndex)>,
    seed: Seq<u8>,
    index: Option<u32>,
    res: Result<Event, Error>,
)
    requires
        match parents {
            None => before.create_outcome(after, deposit, max_owned, origin, seed, index, res),
            Some((kitty_id_1, kitty_id_2)) => before.breed_outcome(
                after,
                deposit,
                max_owned,
                origin,
                kitty_id_1,
                kitty_id_2,
                seed,
                index,
                res,
            ),
        },
    ensures
        after == match res {
            Ok(Event::KittyCreated(owner, _, kitty)) => before.after(
                deposit,
                max_owned,
                minimum,
                Step::Mint { owner, genome: kitty@ },
            ),
            Ok(Event::KittyBreed(owner, _, kitty)) => before.after(
                deposit,
                max_owned,
                minimum,
                Step::Mint { owner, genome: kitty@ },
            ),
            _ => before,
        },
{
}

/// What a call to transfer, list or buy a kitty leaves is what the step of
/// the caller leaves, and what a call from no account leaves is what was
/// there.
pub proof fn law_other_calls_are_steps(
    before: State,
    after: State,
    deposit: Balance,
    max_owned: u32,
    minimum: Balance,
    origin: Origin,
    id: KittyIndex,
    to: AccountId,
    price: Option<Balance>,
    res: Result<Event, Error>,
)
    ensures
        before.transfer_outcome(after, deposit, max_owned, origin, id, to, res) ==> after
            == match origin.signer() {
            Some(sender) => before.after(
                deposit,
                max_owned,
                minimum,
                Step::Transfer { sender, id, to },
            ),
            None => before,
        },
        before.sell_outcome(after, origin, id, price, res) ==> after == match origin.signer() {
            Some(sender) => before.after(
                deposit,
                max_owned,
                minimum,
                Step::Sell { sender, id, price },
            ),
            None => before,
        },
        before.buy_outcome(after, deposit, max_owned, minimum, origin, id, res) ==> after
            == match origin.signer() {
            Some(buyer) => before.after(deposit, max_owned, minimum, Step::Buy { buyer, id }),
            None => before,
        },
{
}

/// A kitty, once minted, stays as it is: no step alters its genome, and
/// none takes it away.
pub proof fn law_kitties_last(
    s: State,
    deposit: Balance,
    max_owned: u32,
    minimum: Balance,
    step: Step,
    id: KittyIndex,
)
    requires
        s.consistent(deposit, max_owned),
        s.kitties.contains_key(id),
    ensures
        s.after(deposit, max_owned, minimum, step).kitties.contains_key(id),
        s.after(deposit, max_owned, minimum, step).kitties[id] == s.kitties[id],
{
}

/// Escrow conservation: in consistent tables, what an account has in escrow
/// is the deposit times the number of kitties it owns.
pub proof fn law_escrow_conservation(s: State, deposit: Balance, max_owned: u32, who: AccountId)
    requires
        s.consistent(deposit, max_owned),
    ensures
        s.balances[who].reserved == deposit * s.owned_kitty[who].len(),
{
}

/// Ownership bijection: in consistent tables, a kitty exists exactly when
/// some account has it in its sequence; then that account is its recorded
/// owner, no other account has it, and it occurs there once.
pub proof fn law_ownership_bijection(s: State, deposit: Balance, max_owned: u32, id: KittyIndex)
    requires
        s.consistent(deposit, max_owned),
    ensures
        s.kitties.contains_key(id) <==> exists|who: AccountId|
            #[trigger] s.owned_kitty[who].contains(id),
        forall|who: AccountId| #[trigger]
            s.owned_kitty[who].contains(id) ==> s.kitty_owned_by[id] == who,
        forall|who: AccountId, i: int, j: int|
            0 <= i < s.owned_kitty[who].len() && 0 <= j < s.owned_kitty[who].len()
                && #[trigger] s.owned_kitty[who][i] == id && #[trigger] s.owned_kitty[who][j] == id
                ==> i == j,
{
    if s.kitties.contains_key(id) {
        assert(s.kitty_owned_by.contains_key(id));
        assert(s.owned_kitty[s.kitty_owned_by[id]].contains(id));
    }
    assert forall|who: AccountId| #[trigger] s.owned_kitty[who].contains(id) implies s.kitties.contains_key(
        id,
    ) && s.kitty_owned_by[id] == who by {
        assert(s.kitty_owned_by.contains_key(id));
    }
    assert forall|who: AccountId, i: int, j: int|
        0 <= i < s.owned_kitty[who].len() && 0 <= j < s.owned_kitty[who].len()
            && #[trigger] s.owned_kitty[who][i] == id && #[trigger] s.owned_kitty[who][j]
            == id implies i == j by {
        assert(s.owned_kitty[who].no_duplicates());
    }
}

/// Capacity ceiling, for minting: an account at capacity is never minted a
/// kitty, and if it can put up the deposit the rejection is one of capacity.
pub proof fn law_capacity_ceiling_mint(s: State, deposit: Balance, max_owned: u32, owner: AccountId)
    requires
        s.consistent(deposit, max_owned),
        s.owned_kitty[owner].len() == max_owned,
    ensures
        s.mint_error(deposit, max_owned, owner) is Some,
        can_reserve(s.balances, owner, deposit) ==> s.mint_error(
            deposit,
            max_owned,
            owner,
        )->0.spec_kind() == ErrorKind::Capacity,
{
}

/// Capacity ceiling, for breeding: an account at capacity never breeds a
/// kitty, and if the parents are two kitties and the account can put up the
/// deposit the rejection is one of capacity.
pub proof fn law_capacity_ceiling_breed(
    s: State,
    deposit: Balance,
    max_owned: u32,
    sender: AccountId,
    kitty_id_1: KittyIndex,
    kitty_id_2: KittyIndex,
)
    requires
        s.consistent(deposit, max_owned),
        s.owned_kitty[sender].len() == max_owned,
    ensures
        s.breed_error(deposit, max_owned, sender, kitty_id_1, kitty_id_2) is Some,
        kitty_id_1 != kitty_id_2 && s.kitties.contains_key(kitty_id_1) && s.kitties.contains_key(
            kitty_id_2,
        ) && can_reserve(s.balances, sender, deposit) ==> s.breed_error(
            deposit,
            max_owned,
            sender,
            kitty_id_1,
            kitty_id_2,
        )->0.spec_kind() == ErrorKind::Capacity,
{
}

/// Capacity ceiling, for transfers: another account at capacity is never
/// transferred a kitty, and if the sender owns the kitty and the account can
/// put up the deposit the rejection is one of capacity.
pub proof fn law_capacity_ceiling_transfer(
    s: State,
    deposit: Balance,
    max_owned: u32,
    sender: AccountId,
    id: KittyIndex,
    to: AccountId,
)
    requires
        s.consistent(deposit, max_owned),
        s.owned_kitty[to].len() == max_owned,
        to != sender,
    ensures
        s.transfer_error(deposit, max_owned, sender, id, to) is Some,
        s.kitties.contains_key(id) && s.kitty_owned_by[id] == sender && can_reserve(
            s.balances,
            to,
            deposit,
        ) ==> s.transfer_error(deposit, max_owned, sender, id, to) == Some(Error::ExceedMaxOwned),
{
}

/// Capacity ceiling, for purchases: an account at capacity never buys a
/// kitty, and if the kitty is someone else's, is for sale, and the buyer can
/// afford it and pay the seller, the rejection is one of capacity.
pub proof fn law_capacity_ceiling_buy(
    s: State,
    deposit: Balance,
    max_owned: u32,
    minimum: Balance,
    buyer: AccountId,
    id: KittyIndex,
)
    requires
        s.consistent(deposit, max_owned),
        s.owned_kitty[buyer].len() == max_owned,
    ensures
        s.buy_error(deposit, max_owned, minimum, buyer, id) is Some,
        s.kitty_owned_by.contains_key(id) && s.kitty_owned_by[id] != buyer
            && s.sale_list.contains_key(id) && s.balances[buyer].free > s.sale_list[id] + deposit
            && can_transfer(
            s.deposit_swapped(deposit, s.kitty_owned_by[id], buyer),
            minimum,
            buyer,
            s.kitty_owned_by[id],
            s.sale_list[id],
            true,
        ) ==> s.buy_error(deposit, max_owned, minimum, buyer, id) == Some(Error::ExceedMaxOwned),
{
}

/// Breeding determinism: the child's genome depends on nothing but the seed,
/// the caller, the command index and the genomes of the two parents.
pub proof fn law_breeding_deterministic(
    seed: (Seq<u8>, Seq<u8>),
    caller: (AccountId, AccountId),
    index: (Option<u32>, Option<u32>),
    first: (Seq<u8>, Seq<u8>),
    second: (Seq<u8>, Seq<u8>),
)
    requires
        seed.0 == seed.1,
        caller.0 == caller.1,
        index.0 == index.1,
        first.0 == first.1,
        second.0 == second.1,
    ensures
        child_genome(first.0, second.0, selector(seed.0, caller.0, index.0)) == child_genome(
            first.1,
            second.1,
            selector(seed.1, caller.1, index.1),
        ),
{
}

} // verus!
