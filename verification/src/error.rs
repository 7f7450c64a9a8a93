//! The ways in which a ledger operation can be refused.

use vstd::prelude::*;

verus! {

/// Why the ledger refused an operation.
///
/// A refused operation never changes the ledger: every check is made before
/// the first wallet is touched.
#[derive(Clone, Copy, Debug, PartialEq, Eq, Structural)]
pub enum LedgerError {
    /// A wallet with the requested name is already open.
    AlreadyExists,
    /// The account that wants to send has no wallet.
    SenderNotFound,
    /// The sender's balance is smaller than the amount to send.
    InsufficientFunds,
    /// The queried account has no wallet.
    NotFound,
}

impl LedgerError {
    /// The human-readable message that belongs to each kind of error.
    pub open spec fn message_text(self) -> Seq<char> {
        match self {
            LedgerError::AlreadyExists => "Wallet already exists"@,
            LedgerError::SenderNotFound => "Sender wallet not found"@,
            LedgerError::InsufficientFunds => "Insufficient funds"@,
            LedgerError::NotFound => "Wallet not found"@,
        }
    }

    /// Renders the error as the message shown to a caller.
    pub fn message(&self) -> (text: String)
        ensures
            text@ == self.message_text(),
    {
        match self {
            LedgerError::AlreadyExists => "Wallet already exists".to_owned(),
            LedgerError::SenderNotFound => "Sender wallet not found".to_owned(),
            LedgerError::InsufficientFunds => "Insufficient funds".to_owned(),
            LedgerError::NotFound => "Wallet not found".to_owned(),
        }
    }
}

} // verus!
