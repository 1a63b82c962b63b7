use vstd::prelude::*;

verus! {

/// The escrow program's own error codes. Every precondition violation
/// surfaces one of these, detected before any funds move.
#[derive(Clone, Copy, Debug, PartialEq, Eq, Structural)]
pub enum LockPayError {
    /// The receiver named in the instruction argument differs from the
    /// receiver account the caller supplied.
    ReceiverMismatch,
    /// The deposit is below the configured minimum.
    AmountBelowMinimum,
    /// The caller is not the party the operation requires (the record's
    /// receiver for a claim, its sender for a cancel).
    Unauthorized,
    /// The record has already been settled.
    AlreadyClaimed,
    /// The custodian account is not owned by the system program.
    InvalidState,
}

/// The error channel of one submitted operation: either the program's own
/// code, or a failure the runtime raises while resolving accounts or moving
/// funds.
#[derive(Clone, Copy, Debug, PartialEq, Eq, Structural)]
pub enum TxError {
    /// The escrow program rejected the operation.
    Program(LockPayError),
    /// Allocation failed: a live record already sits at the address derived
    /// for this (sender, receiver) pair.
    AccountInUse,
    /// No record exists at the derived address.
    AccountNotFound,
    /// A balance transfer was asked of an account that cannot cover it.
    InsufficientFunds,
}

} // verus!
