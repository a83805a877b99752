//! Why a call was refused.

use vstd::prelude::*;

verus! {

/// The refusal that the record rules themselves raise.
#[derive(Clone, Copy, Debug, PartialEq, Eq, Structural)]
pub enum ErrorCode {
    /// The color takes more bytes than a record may hold.
    ColorTooLong,
}

/// Every way a call against the ledger can be refused.
#[derive(Clone, Copy, Debug, PartialEq, Eq, Structural)]
pub enum LedgerError {
    /// The record rules refused the input.
    Rejected(ErrorCode),
    /// The caller already has a record.
    AlreadyExists,
    /// The caller has no record yet.
    NotFound,
    /// The storage location named in the call is not the caller's own.
    InvalidAddress,
}

} // verus!
