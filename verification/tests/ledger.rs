use alpha_core::ledger::{Ledger, LedgerError};

#[test]
fn reserve_moves_free_to_reserved() {
    let mut ledger = Ledger::new();
    ledger.mint_and_credit(5, 30);
    ledger.reserve(5, 12).unwrap();
    assert_eq!(ledger.free_balance(5), 18);
    assert_eq!(ledger.reserved_balance(5), 12);
}

#[test]
fn reserve_fails_without_side_effect() {
    let mut ledger = Ledger::new();
    ledger.mint_and_credit(5, 10);
    let result = ledger.reserve(5, 11);
    assert!(matches!(result, Err(LedgerError::InsufficientBalance)));
    assert_eq!(ledger.free_balance(5), 10);
    assert_eq!(ledger.reserved_balance(5), 0);
}

#[test]
fn untouched_accounts_hold_nothing() {
    let ledger = Ledger::new();
    assert_eq!(ledger.free_balance(9), 0);
    assert_eq!(ledger.reserved_balance(9), 0);
}

#[test]
fn mint_saturates_at_the_ceiling() {
    let mut ledger = Ledger::new();
    ledger.mint_and_credit(5, u128::MAX);
    ledger.mint_and_credit(5, 1);
    assert_eq!(ledger.free_balance(5), u128::MAX);
}

#[test]
fn accounts_are_independent() {
    let mut ledger = Ledger::new();
    ledger.mint_and_credit(5, 30);
    ledger.mint_and_credit(6, 40);
    ledger.reserve(5, 30).unwrap();
    assert_eq!(ledger.free_balance(6), 40);
    assert_eq!(ledger.reserved_balance(6), 0);
}
