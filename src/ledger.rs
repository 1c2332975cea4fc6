use std::collections::HashMap;
use vstd::prelude::*;
use vstd::std_specs::hash::group_hash_axioms;

use crate::model::{lemma_stored_le_sum, lemma_sum_insert, stored, LedgerView};
use crate::types::{AccountId, Balance, Error, Event};

verus! {

broadcast use group_hash_axioms;

/// A token ledger: per-account balances, per-(owner, spender) allowances, a one-shot
/// initialization that mints the configured supply to the configured owner, and the log
/// of emitted events.
pub struct Ledger {
    initialized: bool,
    owner: AccountId,
    total_supply: Balance,
    name: Vec<u8>,
    ticker: Vec<u8>,
    balances: HashMap<AccountId, Balance>,
    /// Keyed by owner, then by spender.
    allowances: HashMap<AccountId, HashMap<AccountId, Balance>>,
    events: Vec<Event>,
}

impl View for Ledger {
    type V = LedgerView;

    closed spec fn view(&self) -> LedgerView {
        LedgerView {
            initialized: self.initialized,
            owner: self.owner,
            total_supply: self.total_supply,
            name: self.name@,
            ticker: self.ticker@,
            balances: self.balances@,
            allowances: Map::new(
                |k: (AccountId, AccountId)|
                    self.allowances@.contains_key(k.0) && self.allowances@[k.0]@.contains_key(k.1),
                |k: (AccountId, AccountId)| self.allowances@[k.0]@[k.1],
            ),
            events: self.events@,
        }
    }
}

impl Ledger {
    /// Every reachable ledger is conserved.
    pub open spec fn wf(&self) -> bool {
        self@.conserved()
    }

    /// A ledger configured at genesis: nothing is held, nothing is allowed, and it is not
    /// yet initialized.
    pub fn new(owner: AccountId, total_supply: Balance, name: Vec<u8>, ticker: Vec<u8>) -> (r: Ledger)
        ensures
            r.wf(),
            r@ == (LedgerView {
                initialized: false,
                owner,
                total_supply,
                name: name@,
                ticker: ticker@,
                balances: Map::empty(),
                allowances: Map::empty(),
                events: Seq::empty(),
            }),
    {
        let r = Ledger {
            initialized: false,
            owner,
            total_supply,
            name,
            ticker,
            balances: HashMap::new(),
            allowances: HashMap::new(),
            events: Vec::new(),
        };
        assert(r@.balances =~= Map::empty());
        assert(r@.allowances =~= Map::empty());
        r
    }

    /// Whether `init` has succeeded.
    pub fn is_init(&self) -> (r: bool)
        ensures
            r == self@.initialized,
    {
        self.initialized
    }

    /// The configured owner.
    pub fn owner(&self) -> (r: AccountId)
        ensures
            r == self@.owner,
    {
        self.owner
    }

    /// The configured total supply.
    pub fn total_supply(&self) -> (r: Balance)
        ensures
            r == self@.total_supply,
    {
        self.total_supply
    }

    /// The token's name.
    pub fn name(&self) -> (r: &Vec<u8>)
        ensures
            r@ == self@.name,
    {
        &self.name
    }

    /// The token's ticker symbol.
    pub fn ticker(&self) -> (r: &Vec<u8>)
        ensures
            r@ == self@.ticker,
    {
        &self.ticker
    }

    /// The events emitted so far, oldest first.
    pub fn events(&self) -> (r: &Vec<Event>)
        ensures
            r@ == self@.events,
    {
        &self.events
    }

    /// The balance entry of `account`, if it was ever written.
    pub fn balance_entry(&self, account: AccountId) -> (r: Option<Balance>)
        ensures
            r == (if self@.balances.contains_key(account) {
                Some(self@.balances[account])
            } else {
                None::<Balance>
            }),
    {
        match self.balances.get(&account) {
            Some(b) => Some(*b),
            None => None,
        }
    }

    /// The balance of `account`, zero where it has no entry.
    pub fn balance_of(&self, account: AccountId) -> (r: Balance)
        ensures
            r == self@.balance(account),
    {
        match self.balance_entry(account) {
            Some(b) => b,
            None => 0,
        }
    }

    /// The allowance entry of `(owner, spender)`, if it was ever written.
    pub fn allowance_entry(&self, owner: AccountId, spender: AccountId) -> (r: Option<Balance>)
        ensures
            r == (if self@.allowances.contains_key((owner, spender)) {
                Some(self@.allowances[(owner, spender)])
            } else {
                None::<Balance>
            }),
    {
        match self.allowances.get(&owner) {
            Some(inner) => match inner.get(&spender) {
                Some(a) => Some(*a),
                None => None,
            },
            None => None,
        }
    }

    /// How much `spender` may still move out of `owner`'s balance, zero where no entry.
    pub fn allowance(&self, owner: AccountId, spender: AccountId) -> (r: Balance)
        ensures
            r == self@.allowance(owner, spender),
    {
        match self.allowance_entry(owner, spender) {
            Some(a) => a,
            None => 0,
        }
    }

    fn set_allowance(&mut self, owner: AccountId, spender: AccountId, value: Balance)
        ensures
            final(self)@ == (LedgerView {
                allowances: old(self)@.allowances.insert((owner, spender), value),
                ..old(self)@
            }),
    {
        let mut inner = match self.allowances.remove(&owner) {
            Some(m) => m,
            None => HashMap::new(),
        };
        inner.insert(spender, value);
        self.allowances.insert(owner, inner);
        assert(self@.allowances =~= old(self)@.allowances.insert((owner, spender), value));
        assert(self@.balances =~= old(self)@.balances);
    }

    /// `init(caller)`: once, and only by the configured owner, credit the owner with the
    /// total supply. No event is emitted.
    pub fn init(&mut self, caller: AccountId) -> (r: Result<(), Error>)
        requires
            old(self).wf(),
        ensures
            final(self).wf(),
            r == old(self)@.init_result(caller),
            r is Ok ==> final(self)@ == old(self)@.after_init(caller),
            r is Err ==> final(self)@ == old(self)@,
    {
        if self.initialized {
            return Err(Error::AlreadyInitialized);
        }
        if caller != self.owner {
            return Err(Error::NotOwner);
        }
        proof {
            lemma_stored_le_sum(self@.balances, caller);
            lemma_sum_insert(self@.balances, caller, self.total_supply);
        }
        self.balances.insert(caller, self.total_supply);
        self.initialized = true;
        assert(self@.allowances =~= old(self)@.allowances);
        Ok(())
    }

    /// Validates a transfer without changing anything; on success gives the sender's and
    /// the recipient's new balances.
    fn check_transfer(&self, from: AccountId, to: AccountId, amount: Balance) -> (r: Result<
        (Balance, Balance),
        Error,
    >)
        ensures
            r is Ok <==> self@.transfer_result(from, to, amount) is Ok,
            r matches Err(e) ==> self@.transfer_result(from, to, amount) == Err::<(), Error>(e),
            r matches Ok((new_from, new_to)) ==> {
                let debited = self@.balances.insert(from, new_from);
                &&& new_from == self@.balances[from] - amount
                &&& new_to == stored(debited, to) + amount
            },
    {
        let held = match self.balance_entry(from) {
            Some(b) => b,
            None => return Err(Error::AccountNotFound),
        };
        if held < amount {
            return Err(Error::InsufficientBalance);
        }
        let new_from = held - amount;
        let current_to = if to == from {
            new_from
        } else {
            self.balance_of(to)
        };
        match current_to.checked_add(amount) {
            Some(new_to) => Ok((new_from, new_to)),
            None => Err(Error::ArithmeticOverflow),
        }
    }

    /// Writes the balances that `check_transfer` computed and emits `Transfer`.
    fn apply_transfer(
        &mut self,
        from: AccountId,
        to: AccountId,
        amount: Balance,
        new_from: Balance,
        new_to: Balance,
    )
        requires
            old(self).wf(),
            old(self)@.transfer_result(from, to, amount) is Ok,
            new_from == old(self)@.balances[from] - amount,
            new_to == stored(old(self)@.balances.insert(from, new_from), to) + amount,
        ensures
            final(self).wf(),
            final(self)@ == old(self)@.after_transfer(from, to, amount),
    {
        let ghost before = self@.balances;
        let ghost debited = before.insert(from, new_from);
        proof {
            lemma_sum_insert(before, from, new_from);
            lemma_sum_insert(debited, to, new_to);
        }
        self.balances.insert(from, new_from);
        self.balances.insert(to, new_to);
        self.events.push(Event::Transfer(from, to, amount));
        assert(self@.allowances =~= old(self)@.allowances);
    }

    /// `transfer(caller, to, amount)`: move `amount` from the caller's balance to `to`'s.
    /// On any error nothing changes and no event is emitted.
    pub fn transfer(&mut self, caller: AccountId, to: AccountId, amount: Balance) -> (r: Result<
        (),
        Error,
    >)
        requires
            old(self).wf(),
        ensures
            final(self).wf(),
            r == old(self)@.transfer_result(caller, to, amount),
            r is Ok ==> final(self)@ == old(self)@.after_transfer(caller, to, amount),
            r is Err ==> final(self)@ == old(self)@,
    {
        match self.check_transfer(caller, to, amount) {
            Ok((new_from, new_to)) => {
                self.apply_transfer(caller, to, amount, new_from, new_to);
                Ok(())
            },
            Err(e) => Err(e),
        }
    }

    /// `approve(caller, spender, amount)`: add `amount` to what `spender` may move out of
    /// the caller's balance, and emit `Approval` with the new allowance. The caller must
    /// have a balance entry.
    pub fn approve(&mut self, caller: AccountId, spender: AccountId, amount: Balance) -> (r: Result<
        (),
        Error,
    >)
        requires
            old(self).wf(),
        ensures
            final(self).wf(),
            r == old(self)@.approve_result(caller, spender, amount),
            r is Ok ==> final(self)@ == old(self)@.after_approve(caller, spender, amount),
            r is Err ==> final(self)@ == old(self)@,
    {
        if self.balance_entry(caller).is_none() {
            return Err(Error::AccountNotFound);
        }
        let current = self.allowance(caller, spender);
        let updated = match current.checked_add(amount) {
            Some(a) => a,
            None => return Err(Error::ArithmeticOverflow),
        };
        self.set_allowance(caller, spender, updated);
        self.events.push(Event::Approval(caller, spender, updated));
        Ok(())
    }

    /// `transfer_from(caller, from, to, amount)`: the caller spends `amount` of the
    /// allowance that `from` gave it, moving that much from `from` to `to`. Emits
    /// `Approval` with the remaining allowance, then `Transfer`. Every check, the
    /// transfer's included, is made before anything is written.
    pub fn transfer_from(
        &mut self,
        caller: AccountId,
        from: AccountId,
        to: AccountId,
        amount: Balance,
    ) -> (r: Result<(), Error>)
        requires
            old(self).wf(),
        ensures
            final(self).wf(),
            r == old(self)@.transfer_from_result(caller, from, to, amount),
            r is Ok ==> final(self)@ == old(self)@.after_transfer_from(caller, from, to, amount),
            r is Err ==> final(self)@ == old(self)@,
    {
        let allowed = match self.allowance_entry(from, caller) {
            Some(a) => a,
            None => return Err(Error::AllowanceNotFound),
        };
        if allowed < amount {
            return Err(Error::InsufficientAllowance);
        }
        let remaining = allowed - amount;
        let (new_from, new_to) = match self.check_transfer(from, to, amount) {
            Ok(p) => p,
            Err(e) => return Err(e),
        };
        self.set_allowance(from, caller, remaining);
        self.events.push(Event::Approval(from, caller, remaining));
        self.apply_transfer(from, to, amount, new_from, new_to);
        Ok(())
    }
}

} // verus!
