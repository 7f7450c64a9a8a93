use openchat_payment_backend::error::LedgerError;
use openchat_payment_backend::wallet::{Transaction, Wallet};

fn record(from: &str, to: &str, amount: u64, timestamp: u64) -> Transaction {
    Transaction::new(from.to_string(), to.to_string(), amount, timestamp)
}

#[test]
fn transaction_keeps_what_it_was_given() {
    let t = record("alice", "bob", 17, 99);
    assert_eq!(t.sender(), "alice");
    assert_eq!(t.recipient(), "bob");
    assert_eq!(t.amount(), 17);
    assert_eq!(t.timestamp(), 99);
}

#[test]
fn transaction_clone_is_equal() {
    let t = record("alice", "bob", u64::MAX, 0);
    let copy = t.clone();
    assert_eq!(copy, t);
    assert_eq!(copy.amount(), u64::MAX);
    assert_eq!(copy.sender(), "alice");
}

#[test]
fn opened_wallet_has_starting_credit() {
    let wallet = Wallet::open();
    assert_eq!(wallet.balance(), 1000);
    assert!(wallet.transaction_history().is_empty());
}

#[test]
fn wallet_opened_by_transfer_holds_the_amount() {
    let wallet = Wallet::opened_by(record("alice", "bob", 55, 3));
    assert_eq!(wallet.balance(), 55);
    assert_eq!(wallet.transaction_history().len(), 1);
    assert_eq!(wallet.transaction_history()[0], record("alice", "bob", 55, 3));
}

#[test]
fn credit_adds_and_files() {
    let mut wallet = Wallet::open();
    wallet.credit(record("alice", "bob", 250, 1));
    assert_eq!(wallet.balance(), 1250);
    assert_eq!(wallet.transaction_history().len(), 1);
    wallet.credit(record("carol", "bob", u64::MAX - 1250, 2));
    assert_eq!(wallet.balance(), u64::MAX);
    assert_eq!(wallet.transaction_history().len(), 2);
    assert_eq!(wallet.transaction_history()[1].sender(), "carol");
}

#[test]
fn debit_takes_and_files() {
    let mut wallet = Wallet::open();
    wallet.debit(record("bob", "alice", 250, 1));
    assert_eq!(wallet.balance(), 750);
    wallet.debit(record("bob", "carol", 750, 2));
    assert_eq!(wallet.balance(), 0);
    assert_eq!(wallet.transaction_history().len(), 2);
    assert_eq!(wallet.transaction_history()[0].recipient(), "alice");
    assert_eq!(wallet.transaction_history()[1].recipient(), "carol");
}

#[test]
fn wallet_from_parts_and_clone() {
    let wallet = Wallet::new(7, vec![record("a", "b", 1, 1), record("b", "a", 2, 2)]);
    assert_eq!(wallet.balance(), 7);
    assert_eq!(wallet.transaction_history().len(), 2);
    let copy = wallet.clone();
    assert_eq!(copy, wallet);
    assert_eq!(copy.transaction_history()[1].amount(), 2);
}

#[test]
fn every_error_has_its_message() {
    assert_eq!(LedgerError::AlreadyExists.message(), "Wallet already exists");
    assert_eq!(LedgerError::SenderNotFound.message(), "Sender wallet not found");
    assert_eq!(LedgerError::InsufficientFunds.message(), "Insufficient funds");
    assert_eq!(LedgerError::NotFound.message(), "Wallet not found");
}

#[test]
fn errors_are_told_apart_by_kind() {
    assert_ne!(LedgerError::NotFound, LedgerError::SenderNotFound);
    assert_ne!(LedgerError::AlreadyExists, LedgerError::InsufficientFunds);
    assert_eq!(LedgerError::NotFound, LedgerError::NotFound);
}
