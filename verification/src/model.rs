//! The mathematical model of the ledger.
//!
//! A ledger is a finite map from account names to wallets. Every operation is
//! described here as a pair of pure functions: the outcome it reports and the
//! ledger it leaves behind. The executable code in [`crate::ledger`] is proved
//! to compute exactly these functions.
//!
//! Balances are modelled as `int`, so that "a balance is never negative" is a
//! theorem about the operations (see [`crate::laws`]) and not an accident of
//! the number type.

use vstd::prelude::*;
use crate::error::LedgerError;

verus! {

/// The balance that a wallet holds when it is opened explicitly.
pub const STARTING_CREDIT: u64 = 1000;

/// One transfer, as recorded in the history of both parties.
pub struct TransactionView {
    pub from: Seq<char>,
    pub to: Seq<char>,
    pub amount: nat,
    pub timestamp: nat,
}

/// A wallet: its balance and the transfers it took part in, oldest first.
pub struct WalletView {
    pub balance: int,
    pub history: Seq<TransactionView>,
}

/// The whole ledger: the wallet of every account that has one.
pub type LedgerView = Map<Seq<char>, WalletView>;

impl WalletView {
    /// The wallet of an account that was opened explicitly.
    pub open spec fn opened() -> WalletView {
        WalletView { balance: STARTING_CREDIT as int, history: Seq::empty() }
    }

    /// The wallet that a first incoming transfer creates.
    pub open spec fn opened_by(record: TransactionView) -> WalletView {
        WalletView { balance: record.amount as int, history: seq![record] }
    }

    /// This wallet after it received the amount of `record`.
    pub open spec fn credited(self, record: TransactionView) -> WalletView {
        WalletView { balance: self.balance + record.amount, history: self.history.push(record) }
    }

    /// This wallet after it paid the amount of `record`.
    pub open spec fn debited(self, record: TransactionView) -> WalletView {
        WalletView { balance: self.balance - record.amount, history: self.history.push(record) }
    }
}

/// The ledger with no wallet at all.
pub open spec fn empty_ledger() -> LedgerView {
    Map::empty()
}

/// What opening a wallet for `name` reports.
pub open spec fn create_wallet_outcome(ledger: LedgerView, name: Seq<char>) -> Result<
    (),
    LedgerError,
> {
    if ledger.contains_key(name) {
        Err(LedgerError::AlreadyExists)
    } else {
        Ok(())
    }
}

/// The ledger after an attempt to open a wallet for `name`.
pub open spec fn create_wallet_effect(ledger: LedgerView, name: Seq<char>) -> LedgerView {
    if ledger.contains_key(name) {
        ledger
    } else {
        ledger.insert(name, WalletView::opened())
    }
}

/// The funds that an attempt to open a wallet puts into circulation: the
/// starting credit if it succeeds, nothing if it is refused.
pub open spec fn credit_issued(outcome: Result<(), LedgerError>) -> int {
    if outcome is Ok {
        STARTING_CREDIT as int
    } else {
        0
    }
}

/// What a transfer of `amount` out of the wallet of `from` reports.
pub open spec fn transfer_outcome(ledger: LedgerView, from: Seq<char>, amount: nat) -> Result<
    (),
    LedgerError,
> {
    if !ledger.contains_key(from) {
        Err(LedgerError::SenderNotFound)
    } else if ledger[from].balance < amount {
        Err(LedgerError::InsufficientFunds)
    } else {
        Ok(())
    }
}

/// The ledger after the recipient of `record` was paid: its wallet is
/// credited, or opened by this very transfer if it had none.
pub open spec fn credit_recipient(ledger: LedgerView, record: TransactionView) -> LedgerView {
    if ledger.contains_key(record.to) {
        ledger.insert(record.to, ledger[record.to].credited(record))
    } else {
        ledger.insert(record.to, WalletView::opened_by(record))
    }
}

/// The ledger after the sender of `record` was charged.
pub open spec fn debit_sender(ledger: LedgerView, record: TransactionView) -> LedgerView {
    ledger.insert(record.from, ledger[record.from].debited(record))
}

/// The ledger after an attempted transfer.
///
/// A refused transfer leaves the ledger as it was. An accepted one pays the
/// recipient first and charges the sender second, with one and the same
/// record filed in both histories. When sender and recipient are the same
/// account both steps hit the same wallet: its balance is unchanged and its
/// history grows by two copies of the record.
pub open spec fn transfer_effect(
    ledger: LedgerView,
    from: Seq<char>,
    to: Seq<char>,
    amount: nat,
    timestamp: nat,
) -> LedgerView {
    if transfer_outcome(ledger, from, amount) is Ok {
        let record = TransactionView { from, to, amount, timestamp };
        debit_sender(credit_recipient(ledger, record), record)
    } else {
        ledger
    }
}

/// All balances of the ledger together: the funds in circulation.
///
/// Defined for ledgers of finitely many wallets, by taking the wallets out
/// one at a time. The order in which they are taken is immaterial, as
/// [`crate::laws::funds_count_each_wallet_once`] shows.
pub open spec fn total_funds(ledger: LedgerView) -> int
    decreases ledger.dom().len(),
    when ledger.dom().finite()
{
    if ledger.dom().len() == 0 {
        0
    } else {
        let name = ledger.dom().choose();
        ledger[name].balance + total_funds(ledger.remove(name))
    }
}

/// What a balance query for `name` reports.
pub open spec fn balance_outcome(ledger: LedgerView, name: Seq<char>) -> Result<int, LedgerError> {
    if ledger.contains_key(name) {
        Ok(ledger[name].balance)
    } else {
        Err(LedgerError::NotFound)
    }
}

/// What a history query for `name` reports.
pub open spec fn history_outcome(ledger: LedgerView, name: Seq<char>) -> Result<
    Seq<TransactionView>,
    LedgerError,
> {
    if ledger.contains_key(name) {
        Ok(ledger[name].history)
    } else {
        Err(LedgerError::NotFound)
    }
}

/// A state-changing request, as data.
pub enum Operation {
    CreateWallet { name: Seq<char> },
    Transfer { from: Seq<char>, to: Seq<char>, amount: nat, timestamp: nat },
    Reset,
}

/// The ledger after one operation.
pub open spec fn apply(ledger: LedgerView, op: Operation) -> LedgerView {
    match op {
        Operation::CreateWallet { name } => create_wallet_effect(ledger, name),
        Operation::Transfer { from, to, amount, timestamp } => transfer_effect(
            ledger,
            from,
            to,
            amount,
            timestamp,
        ),
        Operation::Reset => empty_ledger(),
    }
}

/// The ledger after a whole run of operations, starting from the empty one.
pub open spec fn replay(ops: Seq<Operation>) -> LedgerView
    decreases ops.len(),
{
    if ops.len() == 0 {
        empty_ledger()
    } else {
        apply(replay(ops.drop_last()), ops.last())
    }
}

} // verus!
