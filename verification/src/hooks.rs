//! The hook chain: an extension point invoked around every transfer.

use vstd::prelude::*;

use crate::account::AccountId;
use crate::error::TransferError;

verus! {

/// The ephemeral description of one transfer. It parameterizes the hook
/// invocations and the emitted events; it is owned by the call stack of the
/// operation that created it and is not persisted.
pub struct TransferRecord {
    /// The account debited.
    pub sender: AccountId,
    /// The account credited.
    pub receiver: AccountId,
    /// The amount moved; always positive.
    pub amount: u128,
    /// An optional human-readable note.
    pub memo: Option<String>,
    /// The opaque message forwarded to the receiver; present exactly for
    /// notify transfers.
    pub msg: Option<String>,
}

/// The spec-level image of a `TransferRecord`.
pub struct TransferRecordView {
    /// The account debited.
    pub sender: Seq<u8>,
    /// The account credited.
    pub receiver: Seq<u8>,
    /// The amount moved.
    pub amount: u128,
    /// The optional note.
    pub memo: Option<Seq<char>>,
    /// The optional message marking a notify transfer.
    pub msg: Option<Seq<char>>,
}

impl View for TransferRecord {
    type V = TransferRecordView;

    open spec fn view(&self) -> TransferRecordView {
        TransferRecordView {
            sender: self.sender@,
            receiver: self.receiver@,
            amount: self.amount,
            memo: self.memo.deep_view(),
            msg: self.msg.deep_view(),
        }
    }
}

/// The capability a surrounding contract supplies to observe or veto
/// transfers. `before_transfer` runs before any ledger mutation and may veto
/// the whole operation by returning an error, in which case the ledger stays
/// untouched. `after_transfer` runs once the transfer completes — for a
/// notify transfer that is when resolution completes, so the state it
/// consumes travels with the in-flight transfer's continuation.
pub trait Hooks {
    /// Opaque per-call state, produced by `before_transfer` and consumed
    /// exactly once by the matching `after_transfer`.
    type State;

    /// Observes a transfer about to happen; an error vetoes it.
    fn before_transfer(&mut self, record: &TransferRecord) -> Result<Self::State, TransferError>;

    /// Observes a completed transfer, consuming the matching state.
    fn after_transfer(&mut self, record: &TransferRecord, state: Self::State);
}

/// The no-op hook pair, for contracts that opt out of hooks.
pub struct NoHooks {}

impl Hooks for NoHooks {
    type State = ();

    /// The no-op before-hook never vetoes.
    fn before_transfer(&mut self, _record: &TransferRecord) -> (r: Result<(), TransferError>)
        ensures
            r is Ok,
    {
        Ok(())
    }

    fn after_transfer(&mut self, _record: &TransferRecord, _state: ()) {
    }
}

} // verus!
