use ft_transfer::account::AccountId;
use ft_transfer::error::TransferError;
use ft_transfer::ledger::Ledger;

fn acct(name: &str) -> AccountId {
    AccountId::new(name.as_bytes().to_vec())
}

#[test]
fn balance_of_absent_account_is_zero() {
    let ledger = Ledger::new();
    assert_eq!(ledger.balance_of(&acct("alice")), 0);
    assert_eq!(ledger.total_supply(), 0);
}

#[test]
fn increase_balance_adds_to_balance_and_supply() {
    let mut ledger = Ledger::new();
    assert!(ledger.increase_balance(&acct("alice"), 100).is_ok());
    assert!(ledger.increase_balance(&acct("alice"), 20).is_ok());
    assert!(ledger.increase_balance(&acct("bob"), 7).is_ok());
    assert_eq!(ledger.balance_of(&acct("alice")), 120);
    assert_eq!(ledger.balance_of(&acct("bob")), 7);
    assert_eq!(ledger.total_supply(), 127);
}

#[test]
fn increase_balance_overflow_is_rejected_without_mutation() {
    let mut ledger = Ledger::new();
    assert!(ledger.increase_balance(&acct("alice"), u128::MAX).is_ok());
    let r = ledger.increase_balance(&acct("bob"), 1);
    assert_eq!(r, Err(TransferError::Overflow));
    assert_eq!(ledger.balance_of(&acct("alice")), u128::MAX);
    assert_eq!(ledger.balance_of(&acct("bob")), 0);
    assert_eq!(ledger.total_supply(), u128::MAX);
}

#[test]
fn decrease_balance_subtracts_and_removes_at_zero() {
    let mut ledger = Ledger::new();
    assert!(ledger.increase_balance(&acct("alice"), 50).is_ok());
    assert!(ledger.decrease_balance(&acct("alice"), 20).is_ok());
    assert_eq!(ledger.balance_of(&acct("alice")), 30);
    assert_eq!(ledger.total_supply(), 30);
    assert!(ledger.decrease_balance(&acct("alice"), 30).is_ok());
    assert_eq!(ledger.balance_of(&acct("alice")), 0);
    assert_eq!(ledger.total_supply(), 0);
}

#[test]
fn decrease_balance_beyond_stored_is_rejected_without_mutation() {
    let mut ledger = Ledger::new();
    assert!(ledger.increase_balance(&acct("alice"), 50).is_ok());
    let r = ledger.decrease_balance(&acct("alice"), 51);
    assert_eq!(r, Err(TransferError::InsufficientBalance));
    assert_eq!(ledger.balance_of(&acct("alice")), 50);
    assert_eq!(ledger.total_supply(), 50);
    let r2 = ledger.decrease_balance(&acct("bob"), 1);
    assert_eq!(r2, Err(TransferError::InsufficientBalance));
}

#[test]
fn zero_amount_ledger_ops_are_no_ops() {
    let mut ledger = Ledger::new();
    assert!(ledger.increase_balance(&acct("alice"), 0).is_ok());
    assert!(ledger.decrease_balance(&acct("alice"), 0).is_ok());
    assert_eq!(ledger.balance_of(&acct("alice")), 0);
    assert_eq!(ledger.total_supply(), 0);
}

#[test]
fn apply_transfer_moves_value_and_conserves_supply() {
    let mut ledger = Ledger::new();
    assert!(ledger.increase_balance(&acct("alice"), 100).is_ok());
    assert!(ledger.apply_transfer(&acct("alice"), &acct("bob"), 40).is_ok());
    assert_eq!(ledger.balance_of(&acct("alice")), 60);
    assert_eq!(ledger.balance_of(&acct("bob")), 40);
    assert_eq!(ledger.total_supply(), 100);
}

#[test]
fn apply_transfer_rejections() {
    let mut ledger = Ledger::new();
    assert!(ledger.increase_balance(&acct("alice"), 100).is_ok());
    assert_eq!(
        ledger.apply_transfer(&acct("alice"), &acct("alice"), 1),
        Err(TransferError::InvalidReceiver)
    );
    assert_eq!(
        ledger.apply_transfer(&acct("alice"), &acct("bob"), 0),
        Err(TransferError::InvalidAmount)
    );
    assert_eq!(
        ledger.apply_transfer(&acct("alice"), &acct("bob"), 101),
        Err(TransferError::InsufficientBalance)
    );
    assert_eq!(ledger.balance_of(&acct("alice")), 100);
    assert_eq!(ledger.balance_of(&acct("bob")), 0);
    assert_eq!(ledger.total_supply(), 100);
}

#[test]
fn account_identity_is_by_content() {
    let a = acct("alice");
    let b = acct("alice");
    let c = acct("alicf");
    assert!(a.is_same(&b));
    assert!(!a.is_same(&c));
    assert!(a.duplicate().is_same(&a));
}
