use vstd::prelude::*;

verus! {

/// Identity of an account, as supplied by the host.
pub type AccountId = u64;

/// An amount of the token.
pub type Balance = u128;

/// Why a ledger operation was refused. A refused operation changes nothing.
#[derive(Clone, Copy, Debug, PartialEq, Eq, Structural)]
pub enum Error {
    AlreadyInitialized,
    NotOwner,
    AccountNotFound,
    AllowanceNotFound,
    InsufficientBalance,
    InsufficientAllowance,
    ArithmeticOverflow,
}

/// A notification recorded for the host after a successful operation.
#[derive(Clone, Copy, Debug, PartialEq, Eq, Structural)]
pub enum Event {
    /// `Transfer(from, to, amount)`
    Transfer(AccountId, AccountId, Balance),
    /// `Approval(owner, spender, allowance after the operation)`
    Approval(AccountId, AccountId, Balance),
}

} // verus!
