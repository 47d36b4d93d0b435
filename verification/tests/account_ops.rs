use atm::account::Account;
use atm::amount::to_ticks;

#[test]
fn test_available_funds() {
    let mut account = Account::build(0);
    // Adding
    assert_eq!(account.available_funds(), "0.0000");
    assert!(account.add_funds(to_ticks("10").unwrap()));
    assert_eq!(account.available_funds(), "10.0000");
    // a negative amount never reaches the balance: the codec rejects it
    assert!(to_ticks("-10").is_none());
    assert!(account.add_funds(to_ticks("1000").unwrap()));
    assert_eq!(account.available_funds(), "1010.0000");
    assert!(!account.add_funds(to_ticks("100000000000").unwrap()));
    assert_eq!(account.available_funds(), "1010.0000");
    assert!(account.add_funds(to_ticks("234924.4343").unwrap()));
    assert_eq!(account.available_funds(), "235934.4343");
    assert!(account.add_funds(to_ticks("0.0001").unwrap()));
    assert_eq!(account.available_funds(), "235934.4344");
    // Subtracting
    assert!(!account.substract_funds(to_ticks("100000000000").unwrap()));
    assert_eq!(account.available_funds(), "235934.4344");
    assert!(account.substract_funds(to_ticks("234924.4343").unwrap()));
    assert_eq!(account.available_funds(), "1010.0001");
    assert!(!account.substract_funds(to_ticks("234924.4343").unwrap()));
    assert_eq!(account.available_funds(), "1010.0001");
    assert!(account.substract_funds(to_ticks("1010.0000").unwrap()));
    assert_eq!(account.available_funds(), "0.0001");
    assert!(account.substract_funds(to_ticks("0.0001").unwrap()));
    assert_eq!(account.available_funds(), "0.0000");
}

#[test]
fn test_held_funds() {
    let mut account = Account::build(0);
    assert!(!account.block_funds(to_ticks("100").unwrap()));
    assert_eq!(account.available_funds(), "0.0000");
    assert!(account.add_funds(to_ticks("100").unwrap()));
    assert_eq!(account.available_funds(), "100.0000");
    assert!(account.block_funds(to_ticks("99.0001").unwrap()));
    assert_eq!(account.available_funds(), "0.9999");
    assert_eq!(account.held_funds(), "99.0001");
}

#[test]
fn unblock_returns_held_funds_to_available() {
    let mut account = Account::build(7);
    assert!(account.add_funds(123_456));
    assert!(account.block_funds(23_456));
    assert_eq!(account.available_funds(), "10.0000");
    assert_eq!(account.held_funds(), "2.3456");
    assert!(!account.unblock_funds(23_457));
    assert!(account.unblock_funds(23_456));
    assert_eq!(account.available_funds(), "12.3456");
    assert_eq!(account.held_funds(), "0.0000");
}

#[test]
fn retire_removes_held_funds_permanently() {
    let mut account = Account::build(7);
    assert!(account.add_funds(50_000));
    assert!(account.block_funds(20_000));
    assert!(!account.retire_blocked_funds(20_001));
    assert!(account.retire_blocked_funds(20_000));
    assert_eq!(account.available_funds(), "3.0000");
    assert_eq!(account.held_funds(), "0.0000");
    assert_eq!(account.total_funds(), "3.0000");
}

#[test]
fn lock_is_sticky_and_total_adds_both_balances() {
    let mut account = Account::build(3);
    assert!(!account.locked());
    account.lock();
    assert!(account.locked());
    account.lock();
    assert!(account.locked());
    assert!(account.add_funds(15_000));
    assert!(account.block_funds(5_000));
    assert_eq!(account.available_funds(), "1.0000");
    assert_eq!(account.held_funds(), "0.5000");
    assert_eq!(account.total_funds(), "1.5000");
    assert_eq!(account.client_id(), 3);
}
