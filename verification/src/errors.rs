//! Failure taxonomy: every failure aborts the whole transaction with no
//! partial state change; none is transient or retryable by the core itself.

use vstd::prelude::*;

verus! {

/// A precondition failure raised by the protocol logic itself.
#[derive(Clone, Copy, PartialEq, Eq, Structural, Debug)]
pub enum ErrorCode {
    /// Reserved for a time-window check on registration; no active path
    /// raises it.
    RegistrationNotOpenYet,
    /// The capacity ceiling was reached at registration time.
    RegistrationCompleted,
    /// The supplied code does not match the event's stored code.
    InvalidAttendanceCode,
    /// The current time lies outside the event's window.
    NotMintingTime,
    /// Issuance already completed for this registration.
    NftAlreadyMinted,
}

impl ErrorCode {
    /// The short, stable message shown for each error kind.
    pub open spec fn message_spec(self) -> Seq<char> {
        match self {
            ErrorCode::RegistrationNotOpenYet => "registration not open yet"@,
            ErrorCode::RegistrationCompleted => "registration completed"@,
            ErrorCode::InvalidAttendanceCode => "invalid attendance code"@,
            ErrorCode::NotMintingTime => "minting not reached"@,
            ErrorCode::NftAlreadyMinted => "already minted"@,
        }
    }

    /// A short, stable, human-readable message, suitable for display
    /// without additional context.
    pub fn message(&self) -> (m: &'static str)
        ensures
            m@ == self.message_spec(),
    {
        match self {
            ErrorCode::RegistrationNotOpenYet => "registration not open yet",
            ErrorCode::RegistrationCompleted => "registration completed",
            ErrorCode::InvalidAttendanceCode => "invalid attendance code",
            ErrorCode::NotMintingTime => "minting not reached",
            ErrorCode::NftAlreadyMinted => "already minted",
        }
    }
}

/// How one ledger transaction fails: a domain error raised by the protocol
/// logic, a constraint that the host environment enforces before the logic
/// runs, or an arithmetic guard on the attendee counter.
#[derive(Clone, Copy, PartialEq, Eq, Structural, Debug)]
pub enum TxError {
    /// A domain failure, with its error code.
    Program(ErrorCode),
    /// A record already exists at the derived storage location.
    AccountAlreadyExists,
    /// No record exists at the derived storage location.
    AccountNotFound,
    /// The caller does not match the identity that the operation demands.
    AuthorityMismatch,
    /// A field exceeds the record's fixed allocation.
    DataTooLarge,
    /// Overflow or underflow of the attendee counter; an invariant
    /// violation rather than an expected user error.
    ArithmeticGuard,
}

} // verus!
