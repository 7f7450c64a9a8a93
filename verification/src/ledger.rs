//! The ledger itself: the one place through which wallets are read and
//! changed.
//!
//! Each operation takes the ledger by reference for its whole duration, so no
//! other operation can observe a transfer half done. A refused operation
//! returns before anything is changed.
//!
//! The ledger keeps count of the funds in circulation. Transfers only move
//! funds, so as long as that count fits in a `u64` no balance can overflow.

use vstd::prelude::*;
use vstd::hash_map::StringHashMap;
use crate::error::LedgerError;
use crate::identity::{principal_text, CallerId};
use crate::laws::{
    creation_issues_starting_credit,
    funds_after_insert,
    funds_bound_each_balance,
    solvent,
    transfer_conserves_funds,
};
use crate::model::{
    balance_outcome,
    create_wallet_effect,
    create_wallet_outcome,
    credit_issued,
    empty_ledger,
    history_outcome,
    total_funds,
    transfer_effect,
    transfer_outcome,
    LedgerView,
    TransactionView,
    STARTING_CREDIT,
};
use crate::wallet::{history_view, Transaction, Wallet};

verus! {

/// Whether every indexed name points at a slot of its own.
spec fn consistent(index: Map<Seq<char>, usize>, wallets: Seq<Wallet>) -> bool {
    &&& forall|name: Seq<char>| #[trigger]
        index.contains_key(name) ==> index[name] < wallets.len()
    &&& forall|a: Seq<char>, b: Seq<char>|
        #![trigger index[a], index[b]]
        index.contains_key(a) && index.contains_key(b) && a != b ==> index[a] != index[b]
}

/// The ledger that an index and its slots stand for.
spec fn book(index: Map<Seq<char>, usize>, wallets: Seq<Wallet>) -> LedgerView {
    Map::new(
        |name: Seq<char>| index.contains_key(name),
        |name: Seq<char>| wallets[index[name] as int]@,
    )
}

/// A stored ledger has finitely many wallets, none of them overdrawn.
proof fn book_is_sound(index: Map<Seq<char>, usize>, wallets: Seq<Wallet>)
    requires
        index.dom().finite(),
        consistent(index, wallets),
    ensures
        book(index, wallets).dom().finite(),
        solvent(book(index, wallets)),
{
    let ledger = book(index, wallets);
    assert(ledger.dom() =~= index.dom());
    assert forall|name: Seq<char>| #[trigger] ledger.contains_key(name) implies ledger[name].balance
        >= 0 by {
        wallets[index[name] as int].balance_in_range();
    }
}

/// The authoritative store of all wallets, keyed by account name.
///
/// Wallets live in slots that are never reused; an index maps each account
/// name to its slot.
pub struct Ledger {
    index: StringHashMap<usize>,
    wallets: Vec<Wallet>,
    funds: u64,
}

impl View for Ledger {
    type V = LedgerView;

    closed spec fn view(&self) -> LedgerView {
        book(self.index@, self.wallets@)
    }
}

impl Default for Ledger {
    fn default() -> (ledger: Self)
        ensures
            ledger@ == empty_ledger(),
            total_funds(ledger@) == 0,
    {
        Ledger::new()
    }
}

impl Ledger {
    /// What holds of every stored ledger: the index is finite, every name
    /// has a slot of its own, and the count of funds is the total of all
    /// balances.
    #[verifier::type_invariant]
    spec fn well_formed(self) -> bool {
        &&& self.index@.dom().finite()
        &&& consistent(self.index@, self.wallets@)
        &&& total_funds(book(self.index@, self.wallets@)) == self.funds
    }

    /// A ledger without any wallet.
    pub fn new() -> (ledger: Self)
        ensures
            ledger@ == empty_ledger(),
            total_funds(ledger@) == 0,
    {
        let index = StringHashMap::new();
        let wallets = Vec::new();
        assert(book(index@, wallets@) =~= empty_ledger());
        Ledger { index, wallets, funds: 0 }
    }

    /// Moves index, slots and count out, leaving an empty ledger behind, so
    /// that they can be changed one after the other.
    fn take_apart(&mut self) -> (parts: (StringHashMap<usize>, Vec<Wallet>, u64))
        ensures
            parts.0@ == old(self).index@,
            parts.1@ == old(self).wallets@,
            parts.0@.dom().finite(),
            consistent(parts.0@, parts.1@),
            total_funds(old(self)@) == parts.2,
            old(self)@.dom().finite(),
            solvent(old(self)@),
    {
        proof {
            use_type_invariant(&*self);
            book_is_sound(self.index@, self.wallets@);
        }
        let mut taken = Ledger::new();
        std::mem::swap(self, &mut taken);
        let Ledger { index, wallets, funds } = taken;
        (index, wallets, funds)
    }

    /// The funds in circulation: all balances together.
    pub fn total_funds(&self) -> (funds: u64)
        ensures
            funds == total_funds(self@),
    {
        proof {
            use_type_invariant(self);
        }
        self.funds
    }

    /// Whether one more wallet can be opened without the funds in
    /// circulation leaving the range of `u64`.
    pub fn can_open_wallet(&self) -> (room: bool)
        ensures
            room == (total_funds(self@) + STARTING_CREDIT <= u64::MAX),
    {
        proof {
            use_type_invariant(self);
        }
        self.funds <= u64::MAX - STARTING_CREDIT
    }

    /// Opens a wallet for `username` with the starting credit and an empty
    /// history, unless the name is taken.
    ///
    /// The credit of a new wallet must fit into the funds in circulation,
    /// which [`Ledger::can_open_wallet`] tells.
    pub fn create_wallet(&mut self, username: String) -> (result: Result<(), LedgerError>)
        requires
            create_wallet_outcome(old(self)@, username@) is Ok ==> total_funds(old(self)@)
                + STARTING_CREDIT <= u64::MAX,
        ensures
            result == create_wallet_outcome(old(self)@, username@),
            final(self)@ == create_wallet_effect(old(self)@, username@),
            total_funds(final(self)@) == total_funds(old(self)@) + credit_issued(result),
    {
        if self.index.contains_key(username.as_str()) {
            return Err(LedgerError::AlreadyExists);
        }
        let (mut index, mut wallets, funds) = self.take_apart();
        let slot: usize = wallets.len();
        wallets.push(Wallet::open());
        index.insert(username, slot);
        proof {
            assert(book(index@, wallets@) =~= create_wallet_effect(old(self)@, username@));
            creation_issues_starting_credit(old(self)@, username@);
        }
        *self = Ledger { index, wallets, funds: funds + STARTING_CREDIT };
        Ok(())
    }

    /// Moves `amount` from the wallet of `from` to the wallet of `to`, which
    /// is opened by the transfer if there is none yet. Sender and recipient
    /// each file the same record, stamped `timestamp`.
    ///
    /// Refused, with nothing changed, if `from` has no wallet or holds less
    /// than `amount`. A transfer to oneself is accepted like any other: it
    /// leaves the balance as it was and files the record twice. An amount of
    /// zero is accepted too, and recorded.
    ///
    /// The timestamp is the caller's to supply. Histories are in order of
    /// time as long as it never runs backwards from one transfer to the
    /// next (see [`crate::laws::histories_stay_chronological`]).
    pub fn transfer(&mut self, from: String, to: String, amount: u64, timestamp: u64) -> (result:
        Result<(), LedgerError>)
        ensures
            result == transfer_outcome(old(self)@, from@, amount as nat),
            final(self)@ == transfer_effect(
                old(self)@,
                from@,
                to@,
                amount as nat,
                timestamp as nat,
            ),
            total_funds(final(self)@) == total_funds(old(self)@),
    {
        proof {
            use_type_invariant(&*self);
        }
        let sender_slot: usize = match self.index.get(from.as_str()) {
            Some(slot) => *slot,
            None => {
                return Err(LedgerError::SenderNotFound);
            },
        };
        if self.wallets[sender_slot].balance() < amount {
            return Err(LedgerError::InsufficientFunds);
        }
        let record = Transaction::new(from, to.clone(), amount, timestamp);
        let (mut index, mut wallets, funds) = self.take_apart();

        // The sender is charged first: with the amount out of circulation for
        // a moment, whatever the recipient holds leaves room for it.
        let sender = &mut wallets[sender_slot];
        sender.debit(record.clone());
        let ghost charged = book(index@, wallets@);
        proof {
            assert(charged =~= old(self)@.insert(from@, old(self)@[from@].debited(record@)));
            funds_after_insert(old(self)@, from@, charged[from@]);
            book_is_sound(index@, wallets@);
        }

        match index.get(to.as_str()) {
            Some(slot) => {
                proof {
                    funds_bound_each_balance(charged, to@);
                }
                let recipient = &mut wallets[*slot];
                recipient.credit(record);
            },
            None => {
                let slot: usize = wallets.len();
                wallets.push(Wallet::opened_by(record));
                index.insert(to, slot);
            },
        }
        proof {
            assert(book(index@, wallets@) =~= transfer_effect(
                old(self)@,
                from@,
                to@,
                amount as nat,
                timestamp as nat,
            ));
            transfer_conserves_funds(old(self)@, from@, to@, amount as nat, timestamp as nat);
        }
        *self = Ledger { index, wallets, funds };
        Ok(())
    }

    /// Sends `amount` from the account of `caller` to the wallet of `to`.
    ///
    /// The sender is not chosen by the client: it is the account named by
    /// the textual form of the caller's principal. Everything else is as in
    /// [`Ledger::transfer`].
    pub fn send_payment(&mut self, caller: &CallerId, to: String, amount: u64, timestamp: u64) -> (result:
        Result<(), LedgerError>)
        ensures
            result == transfer_outcome(old(self)@, principal_text(caller@), amount as nat),
            final(self)@ == transfer_effect(
                old(self)@,
                principal_text(caller@),
                to@,
                amount as nat,
                timestamp as nat,
            ),
            total_funds(final(self)@) == total_funds(old(self)@),
    {
        let sender = caller.account_name();
        self.transfer(sender, to, amount, timestamp)
    }

    /// The balance of the wallet of `username`.
    pub fn get_balance(&self, username: String) -> (result: Result<u64, LedgerError>)
        ensures
            match result {
                Ok(balance) => balance_outcome(self@, username@) == Ok::<int, LedgerError>(
                    balance as int,
                ),
                Err(error) => balance_outcome(self@, username@) == Err::<int, LedgerError>(error),
            },
    {
        proof {
            use_type_invariant(self);
        }
        match self.index.get(username.as_str()) {
            Some(slot) => Ok(self.wallets[*slot].balance()),
            None => Err(LedgerError::NotFound),
        }
    }

    /// A copy of the history of the wallet of `username`, oldest transfer
    /// first. The ledger keeps its own records: nothing done to the copy
    /// reaches them.
    pub fn get_transaction_history(&self, username: String) -> (result: Result<
        Vec<Transaction>,
        LedgerError,
    >)
        ensures
            match result {
                Ok(records) => history_outcome(self@, username@) == Ok::<
                    Seq<TransactionView>,
                    LedgerError,
                >(history_view(records@)),
                Err(error) => history_outcome(self@, username@) == Err::<
                    Seq<TransactionView>,
                    LedgerError,
                >(error),
            },
    {
        proof {
            use_type_invariant(self);
        }
        match self.index.get(username.as_str()) {
            Some(slot) => Ok(self.wallets[*slot].transaction_history().clone()),
            None => Err(LedgerError::NotFound),
        }
    }

    /// Whether the ledger holds no wallet.
    pub fn is_empty(&self) -> (empty: bool)
        ensures
            empty == (self@ == empty_ledger()),
    {
        let empty = self.index.is_empty();
        proof {
            assert(self@.dom() =~= self.index@.dom());
            if empty {
                assert(self@ =~= empty_ledger());
            }
        }
        empty
    }

    /// Puts the ledger back into its initial state: every wallet is dropped
    /// and no funds are in circulation. Doing so again changes nothing.
    pub fn init(&mut self)
        ensures
            final(self)@ == empty_ledger(),
            total_funds(final(self)@) == 0,
    {
        *self = Ledger::new();
    }
}

} // verus!
