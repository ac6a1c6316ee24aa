use std::cell::RefCell;
use std::rc::Rc;

use ft_transfer::account::AccountId;
use ft_transfer::controller::TransferController;
use ft_transfer::error::TransferError;
use ft_transfer::hooks::Hooks;
use ft_transfer::hooks::NoHooks;
use ft_transfer::hooks::TransferRecord;
use ft_transfer::ledger::Ledger;

fn acct(name: &str) -> AccountId {
    AccountId::new(name.as_bytes().to_vec())
}

fn funded_controller(funds: &[(&str, u128)]) -> TransferController<NoHooks> {
    let mut ledger = Ledger::new();
    for (name, amount) in funds {
        assert!(ledger.increase_balance(&acct(name), *amount).is_ok());
    }
    TransferController::new(ledger, NoHooks {}, acct("token"))
}

#[test]
fn plain_transfer_conserves_value() {
    let mut c = funded_controller(&[("alice", 100), ("bob", 5)]);
    let r = c.transfer(&acct("alice"), &acct("bob"), 30, None);
    assert!(r.is_ok());
    assert_eq!(c.balance_of(&acct("alice")), 70);
    assert_eq!(c.balance_of(&acct("bob")), 35);
    assert_eq!(c.total_supply(), 105);
}

#[test]
fn plain_transfer_reports_its_event() {
    let mut c = funded_controller(&[("alice", 100)]);
    let ev = c
        .transfer(&acct("alice"), &acct("bob"), 30, Some("rent".to_string()))
        .unwrap();
    assert!(ev.sender.is_same(&acct("alice")));
    assert!(ev.receiver.is_same(&acct("bob")));
    assert_eq!(ev.amount, 30);
    assert_eq!(ev.memo, Some("rent".to_string()));
}

#[test]
fn self_transfer_is_rejected() {
    let mut c = funded_controller(&[("alice", 100)]);
    let r = c.transfer(&acct("alice"), &acct("alice"), 1, None);
    assert_eq!(r.err(), Some(TransferError::InvalidReceiver));
    assert_eq!(c.balance_of(&acct("alice")), 100);
}

#[test]
fn zero_amount_transfer_is_rejected() {
    let mut c = funded_controller(&[("alice", 100)]);
    let r = c.transfer(&acct("alice"), &acct("bob"), 0, None);
    assert_eq!(r.err(), Some(TransferError::InvalidAmount));
    assert_eq!(c.balance_of(&acct("alice")), 100);
    assert_eq!(c.balance_of(&acct("bob")), 0);
}

#[test]
fn transfer_beyond_balance_is_rejected_without_mutation() {
    let mut c = funded_controller(&[("alice", 100)]);
    let r = c.transfer(&acct("alice"), &acct("bob"), 101, None);
    assert_eq!(r.err(), Some(TransferError::InsufficientBalance));
    assert_eq!(c.balance_of(&acct("alice")), 100);
    assert_eq!(c.balance_of(&acct("bob")), 0);
    assert_eq!(c.total_supply(), 100);
}

struct RecordingHooks {
    log: Rc<RefCell<Vec<String>>>,
    veto: bool,
}

impl Hooks for RecordingHooks {
    type State = u64;

    fn before_transfer(&mut self, record: &TransferRecord) -> Result<u64, TransferError> {
        self.log.borrow_mut().push(format!("before:{}", record.amount));
        if self.veto {
            Err(TransferError::Unauthorized)
        } else {
            Ok(7)
        }
    }

    fn after_transfer(&mut self, record: &TransferRecord, state: u64) {
        assert_eq!(state, 7);
        self.log.borrow_mut().push(format!("after:{}", record.amount));
    }
}

#[test]
fn hooks_run_before_and_after_a_successful_transfer() {
    let log = Rc::new(RefCell::new(Vec::new()));
    let mut ledger = Ledger::new();
    assert!(ledger.increase_balance(&acct("alice"), 100).is_ok());
    let hooks = RecordingHooks { log: Rc::clone(&log), veto: false };
    let mut c = TransferController::new(ledger, hooks, acct("token"));
    assert!(c.transfer(&acct("alice"), &acct("bob"), 30, None).is_ok());
    assert_eq!(*log.borrow(), vec!["before:30".to_string(), "after:30".to_string()]);
}

#[test]
fn a_vetoing_before_hook_aborts_before_any_ledger_mutation() {
    let log = Rc::new(RefCell::new(Vec::new()));
    let mut ledger = Ledger::new();
    assert!(ledger.increase_balance(&acct("alice"), 100).is_ok());
    let hooks = RecordingHooks { log: Rc::clone(&log), veto: true };
    let mut c = TransferController::new(ledger, hooks, acct("token"));
    let r = c.transfer(&acct("alice"), &acct("bob"), 30, None);
    assert_eq!(r.err(), Some(TransferError::Unauthorized));
    assert_eq!(c.balance_of(&acct("alice")), 100);
    assert_eq!(c.balance_of(&acct("bob")), 0);
    assert_eq!(*log.borrow(), vec!["before:30".to_string()]);
}
