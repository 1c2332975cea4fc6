use vstd::prelude::*;

use crate::model::{lemma_stored_le_sum, lemma_sum_insert, lemma_sum_remove, stored, LedgerView};
use crate::types::{AccountId, Balance, Error, Event};

verus! {

/// The state after attempting each transfer `(from, to, amount)` of `steps` in order; a
/// transfer that is refused leaves the state as it was.
pub open spec fn after_transfers(v: LedgerView, steps: Seq<(AccountId, AccountId, Balance)>) -> LedgerView
    decreases steps.len(),
{
    if steps.len() == 0 {
        v
    } else {
        let prev = after_transfers(v, steps.drop_last());
        let step = steps.last();
        if prev.transfer_result(step.0, step.1, step.2) is Ok {
            prev.after_transfer(step.0, step.1, step.2)
        } else {
            prev
        }
    }
}

/// A successful transfer neither creates nor destroys tokens.
pub proof fn lemma_transfer_conserves(v: LedgerView, from: AccountId, to: AccountId, amount: Balance)
    requires
        v.conserved(),
        v.transfer_result(from, to, amount) is Ok,
    ensures
        v.after_transfer(from, to, amount).conserved(),
        v.after_transfer(from, to, amount).total_balance() == v.total_balance(),
{
    let debited = v.balances.insert(from, (v.balances[from] - amount) as Balance);
    lemma_sum_insert(v.balances, from, (v.balances[from] - amount) as Balance);
    lemma_sum_insert(debited, to, (stored(debited, to) + amount) as Balance);
}

/// A successful delegated transfer neither creates nor destroys tokens.
pub proof fn lemma_transfer_from_conserves(
    v: LedgerView,
    spender: AccountId,
    from: AccountId,
    to: AccountId,
    amount: Balance,
)
    requires
        v.conserved(),
        v.transfer_from_result(spender, from, to, amount) is Ok,
    ensures
        v.after_transfer_from(spender, from, to, amount).conserved(),
        v.after_transfer_from(spender, from, to, amount).total_balance() == v.total_balance(),
{
    let remaining = (v.allowances[(from, spender)] - amount) as Balance;
    let spent = LedgerView {
        allowances: v.allowances.insert((from, spender), remaining),
        events: v.events.push(Event::Approval(from, spender, remaining)),
        ..v
    };
    lemma_transfer_conserves(spent, from, to, amount);
}

/// Conservation: after initialization, whatever sequence of transfers is attempted, the
/// balances of all accounts add up to the configured total supply.
pub proof fn lemma_transfers_keep_supply(v: LedgerView, steps: Seq<(AccountId, AccountId, Balance)>)
    requires
        v.conserved(),
        v.initialized,
    ensures
        after_transfers(v, steps).conserved(),
        after_transfers(v, steps).total_balance() == v.total_supply,
    decreases steps.len(),
{
    if steps.len() > 0 {
        let prev = after_transfers(v, steps.drop_last());
        lemma_transfers_keep_supply(v, steps.drop_last());
        let step = steps.last();
        if prev.transfer_result(step.0, step.1, step.2) is Ok {
            lemma_transfer_conserves(prev, step.0, step.1, step.2);
        }
    }
}

/// Initialization mints exactly the total supply, to the owner, into an empty ledger.
pub proof fn lemma_init_mints_supply(v: LedgerView, caller: AccountId)
    requires
        v.conserved(),
        v.init_result(caller) is Ok,
    ensures
        v.after_init(caller).conserved(),
        v.after_init(caller).total_balance() == v.total_supply,
        v.after_init(caller).balance(caller) == v.total_supply,
{
    lemma_stored_le_sum(v.balances, caller);
    lemma_sum_insert(v.balances, caller, v.total_supply);
}

/// No underflow: a transfer of more than the sender holds is refused, and a successful one
/// leaves the sender exactly `amount` less (a transfer to oneself leaves it unchanged).
pub proof fn lemma_transfer_no_underflow(v: LedgerView, from: AccountId, to: AccountId, amount: Balance)
    ensures
        amount > v.balance(from) ==> v.transfer_result(from, to, amount) is Err,
        v.transfer_result(from, to, amount) is Ok ==> {
            &&& amount <= v.balance(from)
            &&& v.after_transfer(from, to, amount).balance(from) == if from == to {
                v.balance(from)
            } else {
                (v.balance(from) - amount) as nat
            }
        },
{
}

/// No underflow of an allowance: spending more than is allowed is refused, and a successful
/// delegated transfer leaves the allowance exactly `amount` less.
pub proof fn lemma_transfer_from_no_underflow(
    v: LedgerView,
    spender: AccountId,
    from: AccountId,
    to: AccountId,
    amount: Balance,
)
    ensures
        amount > v.allowance(from, spender) ==> v.transfer_from_result(spender, from, to, amount) is Err,
        v.transfer_from_result(spender, from, to, amount) is Ok ==> {
            &&& amount <= v.allowance(from, spender)
            &&& v.after_transfer_from(spender, from, to, amount).allowance(from, spender)
                == v.allowance(from, spender) - amount
        },
{
}

/// Single init: once `init` has succeeded, every later `init` fails with
/// `AlreadyInitialized`, whoever calls it.
pub proof fn lemma_init_only_once(v: LedgerView, first: AccountId, second: AccountId)
    requires
        v.init_result(first) is Ok,
    ensures
        v.after_init(first).init_result(second) == Err::<(), Error>(Error::AlreadyInitialized),
{
}

/// Before initialization, `init` by anyone but the configured owner fails with `NotOwner`.
pub proof fn lemma_init_needs_owner(v: LedgerView, caller: AccountId)
    requires
        !v.initialized,
        caller != v.owner,
    ensures
        v.init_result(caller) == Err::<(), Error>(Error::NotOwner),
{
}

/// Allowances accumulate: two successful approvals of `a` then `b` leave the allowance
/// grown by `a + b`.
pub proof fn lemma_approve_accumulates(
    v: LedgerView,
    owner: AccountId,
    spender: AccountId,
    a: Balance,
    b: Balance,
)
    requires
        v.approve_result(owner, spender, a) is Ok,
    ensures
        v.after_approve(owner, spender, a).approve_result(owner, spender, b) is Ok
            <==> v.allowance(owner, spender) + a + b <= Balance::MAX,
        v.after_approve(owner, spender, a).approve_result(owner, spender, b) is Ok
            ==> v.after_approve(owner, spender, a).after_approve(owner, spender, b).allowance(
            owner,
            spender,
        ) == v.allowance(owner, spender) + a + b,
{
}

/// A delegated transfer within the allowance, between two distinct accounts, spends the
/// allowance, moves the amount, and emits `Approval` with the remaining allowance followed
/// by `Transfer`.
pub proof fn lemma_transfer_from_effects(
    v: LedgerView,
    spender: AccountId,
    from: AccountId,
    to: AccountId,
    amount: Balance,
)
    requires
        v.transfer_from_result(spender, from, to, amount) is Ok,
        from != to,
    ensures
        ({
            let w = v.after_transfer_from(spender, from, to, amount);
            &&& w.allowance(from, spender) == v.allowance(from, spender) - amount
            &&& w.balance(from) == v.balance(from) - amount
            &&& w.balance(to) == v.balance(to) + amount
            &&& w.events == v.events.push(
                Event::Approval(from, spender, (v.allowance(from, spender) - amount) as Balance),
            ).push(Event::Transfer(from, to, amount))
        }),
{
}

/// On a conserved ledger a transfer never overflows: two balances together never exceed
/// the sum of all balances, which is at most the total supply.
pub proof fn lemma_transfer_never_overflows(v: LedgerView, from: AccountId, to: AccountId, amount: Balance)
    requires
        v.conserved(),
    ensures
        v.transfer_result(from, to, amount) != Err::<(), Error>(Error::ArithmeticOverflow),
{
    if v.balances.contains_key(from) && from != to {
        lemma_sum_remove(v.balances, from);
        lemma_stored_le_sum(v.balances.remove(from), to);
        assert(stored(v.balances.remove(from), to) == v.balance(to));
    }
}

} // verus!
