use vstd::prelude::*;

use crate::types::{AccountId, Balance, Error, Event};

verus! {

/// The abstract state of a ledger.
pub struct LedgerView {
    pub initialized: bool,
    pub owner: AccountId,
    pub total_supply: Balance,
    pub name: Seq<u8>,
    pub ticker: Seq<u8>,
    /// Accounts that have a balance entry, with that balance.
    pub balances: Map<AccountId, Balance>,
    /// Pairs `(owner, spender)` that have an allowance entry, with that allowance.
    pub allowances: Map<(AccountId, AccountId), Balance>,
    /// Every event emitted so far, oldest first.
    pub events: Seq<Event>,
}

/// The value stored under `k`, zero where there is no entry.
pub open spec fn stored<K>(m: Map<K, Balance>, k: K) -> nat {
    if m.contains_key(k) {
        m[k] as nat
    } else {
        0
    }
}

/// Sum of all values of a finite map.
pub open spec fn sum_of(m: Map<AccountId, Balance>) -> nat
    decreases m.dom().len(),
    when m.dom().finite()
{
    if m.dom().len() == 0 {
        0
    } else {
        let k = m.dom().choose();
        m[k] as nat + sum_of(m.remove(k))
    }
}

impl LedgerView {
    pub open spec fn balance(self, a: AccountId) -> nat {
        stored(self.balances, a)
    }

    pub open spec fn allowance(self, owner: AccountId, spender: AccountId) -> nat {
        stored(self.allowances, (owner, spender))
    }

    /// Sum of the balances of all accounts.
    pub open spec fn total_balance(self) -> nat {
        sum_of(self.balances)
    }

    /// Conservation: nothing is held before initialization, and the total supply is held
    /// after it.
    pub open spec fn conserved(self) -> bool {
        &&& self.balances.dom().finite()
        &&& self.total_balance() == if self.initialized {
            self.total_supply as nat
        } else {
            0
        }
    }

    /// Outcome of `init(caller)`.
    pub open spec fn init_result(self, caller: AccountId) -> Result<(), Error> {
        if self.initialized {
            Err(Error::AlreadyInitialized)
        } else if caller != self.owner {
            Err(Error::NotOwner)
        } else {
            Ok(())
        }
    }

    /// State after a successful `init(caller)`.
    pub open spec fn after_init(self, caller: AccountId) -> LedgerView {
        LedgerView {
            initialized: true,
            balances: self.balances.insert(caller, self.total_supply),
            ..self
        }
    }

    /// Outcome of `transfer(from, to, amount)`: the sender must have an entry holding at
    /// least `amount`, and the recipient's new balance must fit (a transfer to oneself
    /// always fits).
    pub open spec fn transfer_result(self, from: AccountId, to: AccountId, amount: Balance) -> Result<
        (),
        Error,
    > {
        if !self.balances.contains_key(from) {
            Err(Error::AccountNotFound)
        } else if self.balances[from] < amount {
            Err(Error::InsufficientBalance)
        } else if from != to && self.balance(to) + amount > Balance::MAX {
            Err(Error::ArithmeticOverflow)
        } else {
            Ok(())
        }
    }

    /// State after a successful `transfer(from, to, amount)`: the sender is debited, then
    /// the recipient is credited, so a transfer to oneself leaves the balance as it was.
    pub open spec fn after_transfer(self, from: AccountId, to: AccountId, amount: Balance) -> LedgerView {
        let debited = self.balances.insert(from, (self.balances[from] - amount) as Balance);
        LedgerView {
            balances: debited.insert(to, (stored(debited, to) + amount) as Balance),
            events: self.events.push(Event::Transfer(from, to, amount)),
            ..self
        }
    }

    /// Outcome of `approve(owner, spender, amount)`.
    pub open spec fn approve_result(self, owner: AccountId, spender: AccountId, amount: Balance) -> Result<
        (),
        Error,
    > {
        if !self.balances.contains_key(owner) {
            Err(Error::AccountNotFound)
        } else if self.allowance(owner, spender) + amount > Balance::MAX {
            Err(Error::ArithmeticOverflow)
        } else {
            Ok(())
        }
    }

    /// State after a successful `approve`: the allowance grows by `amount`.
    pub open spec fn after_approve(self, owner: AccountId, spender: AccountId, amount: Balance) -> LedgerView {
        let updated = (self.allowance(owner, spender) + amount) as Balance;
        LedgerView {
            allowances: self.allowances.insert((owner, spender), updated),
            events: self.events.push(Event::Approval(owner, spender, updated)),
            ..self
        }
    }

    /// Outcome of `transfer_from(spender, from, to, amount)`.
    pub open spec fn transfer_from_result(
        self,
        spender: AccountId,
        from: AccountId,
        to: AccountId,
        amount: Balance,
    ) -> Result<(), Error> {
        if !self.allowances.contains_key((from, spender)) {
            Err(Error::AllowanceNotFound)
        } else if self.allowances[(from, spender)] < amount {
            Err(Error::InsufficientAllowance)
        } else {
            self.transfer_result(from, to, amount)
        }
    }

    /// State after a successful `transfer_from`: the allowance shrinks by `amount`, an
    /// `Approval` with the remaining allowance is emitted, then the transfer is made.
    pub open spec fn after_transfer_from(
        self,
        spender: AccountId,
        from: AccountId,
        to: AccountId,
        amount: Balance,
    ) -> LedgerView {
        let remaining = (self.allowances[(from, spender)] - amount) as Balance;
        let spent = LedgerView {
            allowances: self.allowances.insert((from, spender), remaining),
            events: self.events.push(Event::Approval(from, spender, remaining)),
            ..self
        };
        spent.after_transfer(from, to, amount)
    }
}

/// Removing one entry takes exactly its value off the sum.
pub proof fn lemma_sum_remove(m: Map<AccountId, Balance>, k: AccountId)
    requires
        m.dom().finite(),
        m.contains_key(k),
    ensures
        sum_of(m) == m[k] as nat + sum_of(m.remove(k)),
    decreases m.dom().len(),
{
    assert(m.dom().contains(k));
    let c = m.dom().choose();
    if c != k {
        let mc = m.remove(c);
        let mk = m.remove(k);
        assert(mc.dom() =~= m.dom().remove(c));
        assert(mk.dom() =~= m.dom().remove(k));
        lemma_sum_remove(mc, k);
        lemma_sum_remove(mk, c);
        assert(mc.remove(k) =~= mk.remove(c));
    }
}

/// Writing `v` under `k` changes the sum by the difference with the value stored there.
pub proof fn lemma_sum_insert(m: Map<AccountId, Balance>, k: AccountId, v: Balance)
    requires
        m.dom().finite(),
    ensures
        m.insert(k, v).dom().finite(),
        sum_of(m.insert(k, v)) + stored(m, k) == sum_of(m) + v,
{
    let n = m.insert(k, v);
    assert(n.dom() =~= m.dom().insert(k));
    lemma_sum_remove(n, k);
    if m.contains_key(k) {
        lemma_sum_remove(m, k);
        assert(n.remove(k) =~= m.remove(k));
    } else {
        assert(n.remove(k) =~= m);
    }
}

/// No single entry exceeds the sum.
pub proof fn lemma_stored_le_sum(m: Map<AccountId, Balance>, k: AccountId)
    requires
        m.dom().finite(),
    ensures
        stored(m, k) <= sum_of(m),
{
    if m.contains_key(k) {
        lemma_sum_remove(m, k);
    }
}

} // verus!
