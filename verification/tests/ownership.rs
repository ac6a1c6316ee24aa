use ft_transfer::account::AccountId;
use ft_transfer::owner::Owner;
use ft_transfer::owner::OwnerError;

fn acct(name: &str) -> AccountId {
    AccountId::new(name.as_bytes().to_vec())
}

fn owner_names(a: &Option<AccountId>) -> Option<Vec<u8>> {
    a.as_ref().map(|id| id.bytes.clone())
}

fn initialized(name: &str) -> Owner {
    let mut owner = Owner::new();
    assert!(owner.init(&acct(name)).is_ok());
    owner
}

#[test]
fn require_owner() {
    let owner_id = acct("owner");
    let state = initialized("owner");
    assert!(state.require_owner(&owner_id).is_ok());
}

#[test]
fn require_owner_fail() {
    let state = initialized("owner");
    let alice = acct("alice");
    assert_eq!(state.require_owner(&alice), Err(OwnerError::NotOwner));
}

#[test]
fn renounce_owner() {
    let owner_id = acct("owner");
    let mut state = initialized("owner");
    assert_eq!(owner_names(&state.own_get_owner()), Some(b"owner".to_vec()));
    assert!(state.renounce_owner(&owner_id).is_ok());
    assert_eq!(owner_names(&state.own_get_owner()), None);
}

#[test]
fn propose_owner() {
    let owner_id = acct("owner");
    let mut state = initialized("owner");
    let proposed_owner = acct("proposed");
    assert_eq!(owner_names(&state.own_get_proposed_owner()), None);
    assert!(state.propose_owner(&owner_id, Some(proposed_owner)).is_ok());
    assert_eq!(owner_names(&state.own_get_proposed_owner()), Some(b"proposed".to_vec()));
}

#[test]
fn propose_owner_unauthorized() {
    let mut state = initialized("owner");
    let proposed_owner = acct("proposed");
    let r = state.propose_owner(&proposed_owner.duplicate(), Some(proposed_owner));
    assert_eq!(r.err(), Some(OwnerError::NotOwner));
    assert_eq!(owner_names(&state.own_get_proposed_owner()), None);
}

#[test]
fn accept_owner() {
    let owner_id = acct("owner");
    let mut state = initialized("owner");
    let proposed_owner = acct("proposed");
    assert!(state.propose_owner(&owner_id, Some(proposed_owner.duplicate())).is_ok());
    assert!(state.accept_owner(&proposed_owner).is_ok());
    assert_eq!(owner_names(&state.own_get_owner()), Some(b"proposed".to_vec()));
    assert_eq!(owner_names(&state.own_get_proposed_owner()), None);
}

#[test]
fn accept_owner_unauthorized() {
    let owner_id = acct("owner");
    let mut state = initialized("owner");
    let proposed_owner = acct("proposed");
    assert!(state.propose_owner(&owner_id, Some(proposed_owner)).is_ok());
    let third_party = acct("third");
    let r = state.accept_owner(&third_party);
    assert_eq!(r.err(), Some(OwnerError::NotProposedOwner));
    assert_eq!(owner_names(&state.own_get_owner()), Some(b"owner".to_vec()));
    assert_eq!(owner_names(&state.own_get_proposed_owner()), Some(b"proposed".to_vec()));
}

#[test]
fn accept_owner_without_proposal() {
    let mut state = initialized("owner");
    let r = state.accept_owner(&acct("owner"));
    assert_eq!(r.err(), Some(OwnerError::NoProposedOwner));
}

#[test]
fn update_owner_unchecked() {
    let mut state = initialized("owner");
    let new_owner = acct("new_owner");
    let ev = state.update_owner_unchecked(Some(new_owner));
    assert!(ev.is_some());
    assert_eq!(owner_names(&state.own_get_owner()), Some(b"new_owner".to_vec()));
    assert_eq!(owner_names(&state.own_get_proposed_owner()), None);
}

#[test]
fn update_proposed_unchecked() {
    let mut state = initialized("owner");
    let proposed_owner = acct("proposed");
    let ev = state.update_proposed_unchecked(Some(proposed_owner));
    assert!(ev.is_some());
    assert_eq!(owner_names(&state.own_get_owner()), Some(b"owner".to_vec()));
    assert_eq!(owner_names(&state.own_get_proposed_owner()), Some(b"proposed".to_vec()));
}

#[test]
fn update_owner_emits_only_on_change() {
    let mut state = initialized("owner");
    assert!(state.update_owner_unchecked(Some(acct("owner"))).is_none());
    let ev = state.update_owner_unchecked(None).expect("renouncing is a change");
    assert_eq!(owner_names(&ev.old), Some(b"owner".to_vec()));
    assert_eq!(owner_names(&ev.new), None);
}

#[test]
fn init_twice_is_rejected() {
    let mut state = initialized("owner");
    let r = state.init(&acct("other"));
    assert_eq!(r.err(), Some(OwnerError::AlreadyInitialized));
    assert_eq!(owner_names(&state.own_get_owner()), Some(b"owner".to_vec()));
}

#[test]
fn require_owner_with_no_owner() {
    let state = Owner::new();
    assert_eq!(state.require_owner(&acct("owner")), Err(OwnerError::NoOwner));
}

#[test]
fn accept_owner_reports_the_ownership_transfer() {
    let owner_id = acct("owner");
    let mut state = initialized("owner");
    let proposed_owner = acct("proposed");
    assert!(state.propose_owner(&owner_id, Some(proposed_owner.duplicate())).is_ok());
    let (proposal_event, owner_event) = state.accept_owner(&proposed_owner).unwrap();
    assert_eq!(owner_names(&proposal_event.old), Some(b"proposed".to_vec()));
    assert_eq!(owner_names(&proposal_event.new), None);
    let transfer = owner_event.expect("the owner changed");
    assert_eq!(owner_names(&transfer.old), Some(b"owner".to_vec()));
    assert_eq!(owner_names(&transfer.new), Some(b"proposed".to_vec()));
}

#[test]
fn renounce_owner_reports_its_events() {
    let owner_id = acct("owner");
    let mut state = initialized("owner");
    assert!(state.propose_owner(&owner_id, Some(acct("proposed"))).is_ok());
    let (proposal_event, owner_event) = state.renounce_owner(&owner_id).unwrap();
    let withdrawal = proposal_event.expect("a proposal existed");
    assert_eq!(owner_names(&withdrawal.old), Some(b"proposed".to_vec()));
    assert_eq!(owner_names(&withdrawal.new), None);
    let transfer = owner_event.expect("the owner changed");
    assert_eq!(owner_names(&transfer.old), Some(b"owner".to_vec()));
    assert_eq!(owner_names(&transfer.new), None);
}
