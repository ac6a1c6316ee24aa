//! The ownership state machine: a single owner, handed over by proposal and
//! acceptance.
//!
//! The host supplies the caller of each operation and emits the returned
//! events; the state machine itself — who may do what, and how the owner and
//! the proposed owner change — is verified here. Every operation either
//! completes or returns an error having changed nothing.

use vstd::prelude::*;

use crate::account::AccountId;

verus! {

/// Every way an ownership operation can fail, changing nothing.
#[derive(Clone, Copy, Debug, PartialEq, Eq, Structural)]
pub enum OwnerError {
    /// Initialization was attempted twice.
    AlreadyInitialized,
    /// An owner-only operation ran while no owner exists.
    NoOwner,
    /// An owner-only operation was invoked by another account.
    NotOwner,
    /// Acceptance was attempted while no owner is proposed.
    NoProposedOwner,
    /// Acceptance was invoked by an account other than the proposed owner.
    NotProposedOwner,
}

/// Emitted when the current owner changes. `old` is `None` while the state
/// is being initialized; `new` is `None` when ownership is renounced.
pub struct Transfer {
    /// The former owner.
    pub old: Option<AccountId>,
    /// The new owner.
    pub new: Option<AccountId>,
}

/// Emitted when the proposed owner changes.
pub struct Propose {
    /// The formerly proposed owner.
    pub old: Option<AccountId>,
    /// The newly proposed owner.
    pub new: Option<AccountId>,
}

/// The view of an optional account: the bytes it holds, if any.
pub open spec fn account_view(a: Option<AccountId>) -> Option<Seq<u8>> {
    match a {
        Some(id) => Some(id@),
        None => None,
    }
}

/// The ownership state of a contract.
pub struct Owner {
    initialized: bool,
    owner: Option<AccountId>,
    proposed: Option<AccountId>,
}

impl Owner {
    /// Whether initialization has happened.
    pub closed spec fn is_initialized(&self) -> bool {
        self.initialized
    }

    /// The current owner.
    pub closed spec fn owner_view(&self) -> Option<Seq<u8>> {
        account_view(self.owner)
    }

    /// The currently proposed owner.
    pub closed spec fn proposed_view(&self) -> Option<Seq<u8>> {
        account_view(self.proposed)
    }

    /// An uninitialized ownership state: no owner, no proposed owner.
    pub fn new() -> (r: Owner)
        ensures
            !r.is_initialized(),
            r.owner_view() is None,
            r.proposed_view() is None,
    {
        Owner { initialized: false, owner: None, proposed: None }
    }

    /// Initializes the owner. Possible only once.
    pub fn init(&mut self, owner_id: &AccountId) -> (r: Result<Transfer, OwnerError>)
        ensures
            r is Ok <==> !old(self).is_initialized(),
            r matches Err(e) ==> e == OwnerError::AlreadyInitialized && *final(self) == *old(self),
            r matches Ok(ev) ==> {
                &&& final(self).is_initialized()
                &&& final(self).owner_view() == Some(owner_id@)
                &&& final(self).proposed_view() == old(self).proposed_view()
                &&& account_view(ev.old) is None
                &&& account_view(ev.new) == Some(owner_id@)
            },
    {
        if self.initialized {
            return Err(OwnerError::AlreadyInitialized);
        }
        self.initialized = true;
        self.owner = Some(owner_id.duplicate());
        Ok(Transfer { old: None, new: Some(owner_id.duplicate()) })
    }

    /// Succeeds exactly when `caller` is the current owner.
    pub fn require_owner(&self, caller: &AccountId) -> (r: Result<(), OwnerError>)
        ensures
            r is Ok <==> self.owner_view() == Some(caller@),
            r matches Err(e) ==> {
                &&& (e == OwnerError::NoOwner <==> self.owner_view() is None)
                &&& (e == OwnerError::NotOwner <==> self.owner_view() is Some
                    && self.owner_view() != Some(caller@))
            },
    {
        match &self.owner {
            None => Err(OwnerError::NoOwner),
            Some(owner) => {
                if owner.is_same(caller) {
                    Ok(())
                } else {
                    Err(OwnerError::NotOwner)
                }
            },
        }
    }

    /// Replaces the current owner, with no authorization check; reports the
    /// change as an event when there is one.
    pub fn update_owner_unchecked(&mut self, new: Option<AccountId>) -> (r: Option<Transfer>)
        ensures
            final(self).owner_view() == account_view(new),
            final(self).proposed_view() == old(self).proposed_view(),
            final(self).is_initialized() == old(self).is_initialized(),
            r is Some <==> old(self).owner_view() != account_view(new),
            r matches Some(ev) ==> account_view(ev.old) == old(self).owner_view()
                && account_view(ev.new) == account_view(new),
    {
        let changed = !same_account_option(&self.owner, &new);
        let previous = self.owner.take();
        self.owner = new;
        if changed {
            let current = duplicate_account_option(&self.owner);
            Some(Transfer { old: previous, new: current })
        } else {
            None
        }
    }

    /// Replaces the proposed owner, with no authorization check; reports the
    /// change as an event when there is one.
    pub fn update_proposed_unchecked(&mut self, new: Option<AccountId>) -> (r: Option<Propose>)
        ensures
            final(self).proposed_view() == account_view(new),
            final(self).owner_view() == old(self).owner_view(),
            final(self).is_initialized() == old(self).is_initialized(),
            r is Some <==> old(self).proposed_view() != account_view(new),
            r matches Some(ev) ==> account_view(ev.old) == old(self).proposed_view()
                && account_view(ev.new) == account_view(new),
    {
        let changed = !same_account_option(&self.proposed, &new);
        let previous = self.proposed.take();
        self.proposed = new;
        if changed {
            let current = duplicate_account_option(&self.proposed);
            Some(Propose { old: previous, new: current })
        } else {
            None
        }
    }

    /// Replaces the current owner after checking that `caller` is the
    /// current owner.
    pub fn update_owner(&mut self, caller: &AccountId, new: Option<AccountId>) -> (r: Result<
        Option<Transfer>,
        OwnerError,
    >)
        ensures
            r is Ok <==> old(self).owner_view() == Some(caller@),
            r is Err ==> *final(self) == *old(self),
            r matches Err(e) ==> {
                &&& (e == OwnerError::NoOwner <==> old(self).owner_view() is None)
                &&& (e == OwnerError::NotOwner <==> old(self).owner_view() is Some
                    && old(self).owner_view() != Some(caller@))
            },
            r matches Ok(ev) ==> {
                &&& final(self).owner_view() == account_view(new)
                &&& final(self).proposed_view() == old(self).proposed_view()
                &&& (ev is Some <==> old(self).owner_view() != account_view(new))
                &&& (ev matches Some(t) ==> account_view(t.old) == old(self).owner_view()
                    && account_view(t.new) == account_view(new))
            },
    {
        match self.require_owner(caller) {
            Ok(()) => Ok(self.update_owner_unchecked(new)),
            Err(e) => Err(e),
        }
    }

    /// Replaces the proposed owner after checking that `caller` is the
    /// current owner.
    pub fn update_proposed(&mut self, caller: &AccountId, new: Option<AccountId>) -> (r: Result<
        Option<Propose>,
        OwnerError,
    >)
        ensures
            r is Ok <==> old(self).owner_view() == Some(caller@),
            r is Err ==> *final(self) == *old(self),
            r matches Err(e) ==> {
                &&& (e == OwnerError::NoOwner <==> old(self).owner_view() is None)
                &&& (e == OwnerError::NotOwner <==> old(self).owner_view() is Some
                    && old(self).owner_view() != Some(caller@))
            },
            r matches Ok(ev) ==> {
                &&& final(self).proposed_view() == account_view(new)
                &&& final(self).owner_view() == old(self).owner_view()
                &&& (ev is Some <==> old(self).proposed_view() != account_view(new))
                &&& (ev matches Some(t) ==> account_view(t.old) == old(self).proposed_view()
                    && account_view(t.new) == account_view(new))
            },
    {
        match self.require_owner(caller) {
            Ok(()) => Ok(self.update_proposed_unchecked(new)),
            Err(e) => Err(e),
        }
    }

    /// Removes the owner, and any proposed owner with it. Only the current
    /// owner may do this; afterwards there is no way back to having an owner.
    pub fn renounce_owner(&mut self, caller: &AccountId) -> (r: Result<
        (Option<Propose>, Option<Transfer>),
        OwnerError,
    >)
        ensures
            r is Ok <==> old(self).owner_view() == Some(caller@),
            r is Err ==> *final(self) == *old(self),
            r matches Err(e) ==> {
                &&& (e == OwnerError::NoOwner <==> old(self).owner_view() is None)
                &&& (e == OwnerError::NotOwner <==> old(self).owner_view() is Some
                    && old(self).owner_view() != Some(caller@))
            },
            r is Ok ==> final(self).owner_view() is None && final(self).proposed_view() is None,
            r matches Ok(pair) ==> {
                &&& (pair.0 is Some <==> old(self).proposed_view() is Some)
                &&& (pair.0 matches Some(p) ==> account_view(p.old) == old(self).proposed_view()
                    && account_view(p.new) is None)
                &&& pair.1 is Some
                &&& (pair.1 matches Some(t) ==> account_view(t.old) == old(self).owner_view()
                    && account_view(t.new) is None)
            },
    {
        match self.require_owner(caller) {
            Ok(()) => {
                let proposed_event = self.update_proposed_unchecked(None);
                let owner_event = self.update_owner_unchecked(None);
                Ok((proposed_event, owner_event))
            },
            Err(e) => Err(e),
        }
    }

    /// Proposes a new owner (or withdraws the proposal with `None`). Only
    /// the current owner may do this.
    pub fn propose_owner(&mut self, caller: &AccountId, account_id: Option<AccountId>) -> (r:
        Result<Option<Propose>, OwnerError>)
        ensures
            r is Ok <==> old(self).owner_view() == Some(caller@),
            r is Err ==> *final(self) == *old(self),
            r matches Err(e) ==> {
                &&& (e == OwnerError::NoOwner <==> old(self).owner_view() is None)
                &&& (e == OwnerError::NotOwner <==> old(self).owner_view() is Some
                    && old(self).owner_view() != Some(caller@))
            },
            r matches Ok(ev) ==> {
                &&& final(self).proposed_view() == account_view(account_id)
                &&& final(self).owner_view() == old(self).owner_view()
                &&& (ev is Some <==> old(self).proposed_view() != account_view(account_id))
                &&& (ev matches Some(p) ==> account_view(p.old) == old(self).proposed_view()
                    && account_view(p.new) == account_view(account_id))
            },
    {
        self.update_proposed(caller, account_id)
    }

    /// The proposed owner accepts ownership: the proposal is consumed and
    /// the caller becomes the owner. Only the proposed owner may do this.
    pub fn accept_owner(&mut self, caller: &AccountId) -> (r: Result<
        (Propose, Option<Transfer>),
        OwnerError,
    >)
        ensures
            r is Ok <==> old(self).proposed_view() == Some(caller@),
            r is Err ==> *final(self) == *old(self),
            r matches Err(e) ==> {
                &&& (e == OwnerError::NoProposedOwner <==> old(self).proposed_view() is None)
                &&& (e == OwnerError::NotProposedOwner <==> old(self).proposed_view() is Some
                    && old(self).proposed_view() != Some(caller@))
            },
            r is Ok ==> final(self).owner_view() == Some(caller@)
                && final(self).proposed_view() is None,
            r matches Ok(pair) ==> {
                &&& account_view(pair.0.old) == old(self).proposed_view()
                &&& account_view(pair.0.new) is None
                &&& (pair.1 is Some <==> old(self).owner_view() != Some(caller@))
                &&& (pair.1 matches Some(t) ==> account_view(t.old) == old(self).owner_view()
                    && account_view(t.new) == Some(caller@))
            },
    {
        let authorized = match &self.proposed {
            None => {
                return Err(OwnerError::NoProposedOwner);
            },
            Some(proposed) => proposed.is_same(caller),
        };
        if !authorized {
            return Err(OwnerError::NotProposedOwner);
        }
        let previous = self.proposed.take();
        let proposal_event = Propose { old: previous, new: None };
        let owner_event = self.update_owner_unchecked(Some(caller.duplicate()));
        Ok((proposal_event, owner_event))
    }

    /// The current owner, for the host's query surface.
    pub fn own_get_owner(&self) -> (r: Option<AccountId>)
        ensures
            account_view(r) == self.owner_view(),
    {
        duplicate_account_option(&self.owner)
    }

    /// The proposed owner, for the host's query surface.
    pub fn own_get_proposed_owner(&self) -> (r: Option<AccountId>)
        ensures
            account_view(r) == self.proposed_view(),
    {
        duplicate_account_option(&self.proposed)
    }
}

/// Content equality of two optional accounts.
fn same_account_option(a: &Option<AccountId>, b: &Option<AccountId>) -> (r: bool)
    ensures
        r == (account_view(*a) == account_view(*b)),
{
    match (a, b) {
        (None, None) => true,
        (Some(x), Some(y)) => x.is_same(y),
        _ => false,
    }
}

/// A structural copy of an optional account.
fn duplicate_account_option(a: &Option<AccountId>) -> (r: Option<AccountId>)
    ensures
        account_view(r) == account_view(*a),
{
    match a {
        None => None,
        Some(x) => Some(x.duplicate()),
    }
}

} // verus!
