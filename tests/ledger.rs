use erc20::{Error, Event, Ledger};

const O: u64 = 1;

fn funded() -> Ledger {
    let mut l = Ledger::new(O, 1000, b"Token".to_vec(), b"TKN".to_vec());
    assert_eq!(l.init(O), Ok(()));
    l
}

fn total(l: &Ledger, accounts: &[u64]) -> u128 {
    accounts.iter().map(|a| l.balance_of(*a)).sum()
}

#[test]
fn new_ledger_is_empty_and_configured() {
    let l = Ledger::new(O, 1000, b"Token".to_vec(), b"TKN".to_vec());
    assert!(!l.is_init());
    assert_eq!(l.owner(), O);
    assert_eq!(l.total_supply(), 1000);
    assert_eq!(l.name(), &b"Token".to_vec());
    assert_eq!(l.ticker(), &b"TKN".to_vec());
    assert_eq!(l.balance_of(O), 0);
    assert_eq!(l.balance_entry(O), None);
    assert_eq!(l.allowance(O, 2), 0);
    assert_eq!(l.allowance_entry(O, 2), None);
    assert!(l.events().is_empty());
}

#[test]
fn init_credits_owner_then_refuses_again() {
    let mut l = Ledger::new(O, 1000, Vec::new(), Vec::new());
    assert_eq!(l.init(O), Ok(()));
    assert!(l.is_init());
    assert_eq!(l.balance_of(O), 1000);
    assert_eq!(l.init(O), Err(Error::AlreadyInitialized));
    assert_eq!(l.balance_of(O), 1000);
    assert!(l.events().is_empty());
}

#[test]
fn second_init_by_other_caller_is_already_initialized() {
    let mut l = funded();
    assert_eq!(l.init(7), Err(Error::AlreadyInitialized));
}

#[test]
fn init_by_non_owner_is_refused_without_change() {
    let mut l = Ledger::new(O, 1000, Vec::new(), Vec::new());
    assert_eq!(l.init(2), Err(Error::NotOwner));
    assert!(!l.is_init());
    assert_eq!(l.balance_of(2), 0);
    assert_eq!(l.balance_of(O), 0);
    assert_eq!(l.init(O), Ok(()));
}

#[test]
fn transfer_moves_balance_and_emits_event() {
    let mut l = funded();
    assert_eq!(l.transfer(O, 2, 300), Ok(()));
    assert_eq!(l.balance_of(O), 700);
    assert_eq!(l.balance_of(2), 300);
    assert_eq!(l.events(), &vec![Event::Transfer(O, 2, 300)]);
}

#[test]
fn transfer_insufficient_balance_changes_nothing() {
    let mut l = funded();
    assert_eq!(l.transfer(O, 10, 10), Ok(()));
    let events_before = l.events().len();
    assert_eq!(l.transfer(10, 11, 50), Err(Error::InsufficientBalance));
    assert_eq!(l.balance_of(10), 10);
    assert_eq!(l.balance_of(11), 0);
    assert_eq!(l.balance_entry(11), None);
    assert_eq!(l.events().len(), events_before);
}

#[test]
fn transfer_from_unfunded_account_is_not_found() {
    let mut l = funded();
    assert_eq!(l.transfer(5, O, 0), Err(Error::AccountNotFound));
    let mut fresh = Ledger::new(O, 1000, Vec::new(), Vec::new());
    assert_eq!(fresh.transfer(O, 2, 1), Err(Error::AccountNotFound));
}

#[test]
fn transfer_to_self_keeps_balance() {
    let mut l = funded();
    assert_eq!(l.transfer(O, O, 400), Ok(()));
    assert_eq!(l.balance_of(O), 1000);
    assert_eq!(l.events(), &vec![Event::Transfer(O, O, 400)]);
}

#[test]
fn transfers_at_the_largest_supply() {
    let mut l = Ledger::new(O, u128::MAX, Vec::new(), Vec::new());
    assert_eq!(l.init(O), Ok(()));
    assert_eq!(l.transfer(O, 2, 5), Ok(()));
    // No balance can exceed the supply, so even at the largest supply crediting fits.
    assert_eq!(l.transfer(2, O, 5), Ok(()));
    assert_eq!(l.balance_of(O), u128::MAX);
    assert_eq!(l.balance_of(2), 0);
}

#[test]
fn conservation_over_transfers() {
    let mut l = funded();
    let accounts = [O, 2, 3, 4];
    let steps: [(u64, u64, u128); 6] =
        [(O, 2, 100), (2, 3, 40), (3, 4, 50), (O, 4, 900), (4, 2, 10), (2, 2, 5)];
    for (from, to, amount) in steps.iter() {
        let _ = l.transfer(*from, *to, *amount);
        assert_eq!(total(&l, &accounts), 1000);
    }
    assert_eq!(l.balance_of(O), 0);
    assert_eq!(l.balance_of(2), 70);
    assert_eq!(l.balance_of(3), 40);
    assert_eq!(l.balance_of(4), 890);
}

#[test]
fn approve_accumulates() {
    let mut l = funded();
    assert_eq!(l.approve(O, 2, 30), Ok(()));
    assert_eq!(l.approve(O, 2, 30), Ok(()));
    assert_eq!(l.allowance(O, 2), 60);
    assert_eq!(
        l.events(),
        &vec![Event::Approval(O, 2, 30), Event::Approval(O, 2, 60)]
    );
}

#[test]
fn approve_without_balance_entry_is_not_found() {
    let mut l = funded();
    assert_eq!(l.approve(9, 2, 30), Err(Error::AccountNotFound));
    assert_eq!(l.allowance_entry(9, 2), None);
    assert!(l.events().is_empty());
}

#[test]
fn approve_overflow_is_refused() {
    let mut l = funded();
    assert_eq!(l.approve(O, 2, u128::MAX), Ok(()));
    assert_eq!(l.approve(O, 2, 1), Err(Error::ArithmeticOverflow));
    assert_eq!(l.allowance(O, 2), u128::MAX);
    assert_eq!(l.events().len(), 1);
}

#[test]
fn delegated_transfer_respects_allowance() {
    let (a, b, c) = (O, 2, 3);
    let mut l = funded();
    assert_eq!(l.approve(a, b, 50), Ok(()));
    let before = l.events().len();
    assert_eq!(l.transfer_from(b, a, c, 20), Ok(()));
    assert_eq!(l.allowance(a, b), 30);
    assert_eq!(l.balance_of(a), 980);
    assert_eq!(l.balance_of(c), 20);
    assert_eq!(
        &l.events()[before..],
        &[Event::Approval(a, b, 30), Event::Transfer(a, c, 20)]
    );
}

#[test]
fn transfer_from_unknown_allowance() {
    let mut l = funded();
    assert_eq!(l.transfer_from(4, O, 5, 1), Err(Error::AllowanceNotFound));
    assert_eq!(l.balance_of(O), 1000);
}

#[test]
fn transfer_from_insufficient_allowance() {
    let mut l = funded();
    assert_eq!(l.approve(O, 2, 10), Ok(()));
    assert_eq!(l.transfer_from(2, O, 3, 11), Err(Error::InsufficientAllowance));
    assert_eq!(l.allowance(O, 2), 10);
    assert_eq!(l.balance_of(3), 0);
}

#[test]
fn transfer_from_failing_transfer_keeps_allowance() {
    let mut l = funded();
    assert_eq!(l.transfer(O, 5, 10), Ok(()));
    assert_eq!(l.approve(5, 2, 100), Ok(()));
    let events_before = l.events().len();
    assert_eq!(l.transfer_from(2, 5, 3, 50), Err(Error::InsufficientBalance));
    assert_eq!(l.allowance(5, 2), 100);
    assert_eq!(l.balance_of(5), 10);
    assert_eq!(l.events().len(), events_before);
}

#[test]
fn zero_allowance_entry_still_exists() {
    let mut l = funded();
    assert_eq!(l.approve(O, 2, 5), Ok(()));
    assert_eq!(l.transfer_from(2, O, 3, 5), Ok(()));
    assert_eq!(l.allowance_entry(O, 2), Some(0));
    assert_eq!(l.transfer_from(2, O, 3, 0), Ok(()));
    assert_eq!(l.transfer_from(2, O, 3, 1), Err(Error::InsufficientAllowance));
}
