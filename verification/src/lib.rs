//! An in-memory ledger of named wallets.
//!
//! Wallets are opened with a fixed starting credit, funds move between them
//! by transfers that are recorded in the history of both parties, and
//! balances and histories can be read back.
//!
//! [`model`] says what every operation means as a pure function on a map of
//! wallets, [`ledger`] holds the executable ledger, proved to compute those
//! functions, and [`laws`] proves what follows for every ledger and every
//! run of operations.

pub mod error;
pub mod identity;
pub mod laws;
pub mod ledger;
pub mod model;
pub mod wallet;

pub use error::LedgerError;
pub use identity::CallerId;
pub use ledger::Ledger;
pub use wallet::{Transaction, Wallet};
