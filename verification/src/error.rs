//! The failure taxonomy of the transfer engine.

use vstd::prelude::*;

verus! {

/// Every way an operation of the engine can fail. Each failure is fatal to
/// the operation in which it occurs: the operation reports the error without
/// having mutated the ledger.
#[derive(Clone, Copy, Debug, PartialEq, Eq, Structural)]
pub enum TransferError {
    /// The amount of a transfer was zero.
    InvalidAmount,
    /// The sender and the receiver of a transfer were the same account.
    InvalidReceiver,
    /// A balance decrease exceeded the stored balance.
    InsufficientBalance,
    /// A balance increase would exceed the representable range.
    Overflow,
    /// The resolve callback was invoked by an account other than the
    /// controller itself, i.e. outside its sanctioned continuation.
    Unauthorized,
}

} // verus!
