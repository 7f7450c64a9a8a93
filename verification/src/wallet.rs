//! The records that the ledger stores: transactions and wallets.

use vstd::prelude::*;
use crate::model::{TransactionView, WalletView, STARTING_CREDIT};

verus! {

/// The record of one transfer. Once made it is never changed; sender and
/// recipient each keep a copy in their history.
#[derive(Debug, PartialEq, Eq)]
pub struct Transaction {
    from: String,
    to: String,
    amount: u64,
    timestamp: u64,
}

impl View for Transaction {
    type V = TransactionView;

    closed spec fn view(&self) -> TransactionView {
        TransactionView {
            from: self.from@,
            to: self.to@,
            amount: self.amount as nat,
            timestamp: self.timestamp as nat,
        }
    }
}

impl Clone for Transaction {
    fn clone(&self) -> (copy: Self)
        ensures
            copy == *self,
    {
        Transaction {
            from: self.from.clone(),
            to: self.to.clone(),
            amount: self.amount,
            timestamp: self.timestamp,
        }
    }
}

impl Transaction {
    /// Records a transfer of `amount` from `from` to `to` at time `timestamp`.
    pub fn new(from: String, to: String, amount: u64, timestamp: u64) -> (record: Self)
        ensures
            record@ == (TransactionView {
                from: from@,
                to: to@,
                amount: amount as nat,
                timestamp: timestamp as nat,
            }),
    {
        Transaction { from, to, amount, timestamp }
    }

    /// The account that paid.
    pub fn sender(&self) -> (name: &str)
        ensures
            name@ == self@.from,
    {
        self.from.as_str()
    }

    /// The account that was paid.
    pub fn recipient(&self) -> (name: &str)
        ensures
            name@ == self@.to,
    {
        self.to.as_str()
    }

    /// The amount that moved, in the smallest currency unit.
    pub fn amount(&self) -> (amount: u64)
        ensures
            amount == self@.amount,
    {
        self.amount
    }

    /// The clock value at which the transfer was made.
    pub fn timestamp(&self) -> (timestamp: u64)
        ensures
            timestamp == self@.timestamp,
    {
        self.timestamp
    }
}

/// The views of a run of transactions, in the same order.
pub open spec fn history_view(records: Seq<Transaction>) -> Seq<TransactionView> {
    records.map_values(|record: Transaction| record@)
}

/// A named account's holdings: a balance and the history of its transfers,
/// oldest first. The history only ever grows.
#[derive(Debug, PartialEq, Eq)]
pub struct Wallet {
    balance: u64,
    transaction_history: Vec<Transaction>,
}

impl View for Wallet {
    type V = WalletView;

    closed spec fn view(&self) -> WalletView {
        WalletView {
            balance: self.balance as int,
            history: history_view(self.transaction_history@),
        }
    }
}

impl Clone for Wallet {
    fn clone(&self) -> (copy: Self)
        ensures
            copy@ == self@,
    {
        Wallet { balance: self.balance, transaction_history: self.transaction_history.clone() }
    }
}

impl Wallet {
    /// A wallet with the given balance and history.
    pub fn new(balance: u64, transaction_history: Vec<Transaction>) -> (wallet: Self)
        ensures
            wallet@ == (WalletView {
                balance: balance as int,
                history: history_view(transaction_history@),
            }),
    {
        Wallet { balance, transaction_history }
    }

    /// A wallet opened explicitly: it holds the starting credit and has no
    /// history yet.
    pub fn open() -> (wallet: Self)
        ensures
            wallet@ == WalletView::opened(),
    {
        let wallet = Wallet { balance: STARTING_CREDIT, transaction_history: Vec::new() };
        assert(wallet@.history =~= Seq::empty());
        wallet
    }

    /// A wallet opened by its first incoming transfer: it holds what was
    /// sent, and the transfer is the first entry of its history.
    pub fn opened_by(record: Transaction) -> (wallet: Self)
        ensures
            wallet@ == WalletView::opened_by(record@),
    {
        let balance = record.amount;
        let mut transaction_history = Vec::new();
        transaction_history.push(record);
        let wallet = Wallet { balance, transaction_history };
        assert(wallet@.history =~= seq![record@]);
        wallet
    }

    /// Adds the amount of `record` to the balance and files the record.
    pub fn credit(&mut self, record: Transaction)
        requires
            old(self)@.balance + record@.amount <= u64::MAX,
        ensures
            final(self)@ == old(self)@.credited(record@),
    {
        self.balance = self.balance + record.amount;
        self.transaction_history.push(record);
        assert(self@.history =~= old(self)@.history.push(record@));
    }

    /// Takes the amount of `record` from the balance and files the record.
    pub fn debit(&mut self, record: Transaction)
        requires
            old(self)@.balance >= record@.amount,
        ensures
            final(self)@ == old(self)@.debited(record@),
    {
        self.balance = self.balance - record.amount;
        self.transaction_history.push(record);
        assert(self@.history =~= old(self)@.history.push(record@));
    }

    /// A stored balance is a `u64`: never negative, never beyond `u64::MAX`.
    pub proof fn balance_in_range(&self)
        ensures
            0 <= self@.balance <= u64::MAX,
    {
    }

    /// The current balance.
    pub fn balance(&self) -> (balance: u64)
        ensures
            balance == self@.balance,
    {
        self.balance
    }

    /// The transfers this wallet took part in, oldest first.
    pub fn transaction_history(&self) -> (records: &Vec<Transaction>)
        ensures
            history_view(records@) == self@.history,
    {
        &self.transaction_history
    }
}

} // verus!
