//! What holds of the ledger whatever is done to it.
//!
//! Each law is stated over the model of [`crate::model`], which is what the
//! contracts of the executable operations speak of, and is proved here once
//! and for all.

use vstd::prelude::*;
use crate::error::LedgerError;
use crate::model::{
    apply,
    balance_outcome,
    create_wallet_effect,
    create_wallet_outcome,
    credit_issued,
    credit_recipient,
    empty_ledger,
    history_outcome,
    replay,
    total_funds,
    transfer_effect,
    transfer_outcome,
    LedgerView,
    Operation,
    TransactionView,
    WalletView,
    STARTING_CREDIT,
};

verus! {

/// Whether no wallet of the ledger is overdrawn.
pub open spec fn solvent(ledger: LedgerView) -> bool {
    forall|name: Seq<char>| #[trigger]
        ledger.contains_key(name) ==> ledger[name].balance >= 0
}

/// No operation overdraws a wallet: if every balance is at least zero
/// before, every balance is at least zero after.
pub proof fn operation_keeps_ledger_solvent(ledger: LedgerView, op: Operation)
    requires
        solvent(ledger),
    ensures
        solvent(apply(ledger, op)),
{
}

/// After any run of operations, started on the empty ledger, the balance of
/// every wallet is at least zero.
pub proof fn balances_never_negative(ops: Seq<Operation>)
    ensures
        solvent(replay(ops)),
    decreases ops.len(),
{
    if ops.len() > 0 {
        balances_never_negative(ops.drop_last());
        operation_keeps_ledger_solvent(replay(ops.drop_last()), ops.last());
    }
}

/// A wallet that was just opened holds the starting credit: a balance query
/// right after a successful creation reports exactly that amount.
pub proof fn new_wallet_holds_starting_credit(ledger: LedgerView, name: Seq<char>)
    requires
        create_wallet_outcome(ledger, name) is Ok,
    ensures
        balance_outcome(create_wallet_effect(ledger, name), name) == Ok::<int, LedgerError>(
            STARTING_CREDIT as int,
        ),
        STARTING_CREDIT == 1000,
{
}

/// Opening a wallet succeeds exactly when the name is free. Once a name has
/// been asked for, asking again is refused with `AlreadyExists`, and the
/// refusal changes nothing: not the balance of that wallet, nor anything
/// else.
pub proof fn wallet_is_created_only_once(ledger: LedgerView, name: Seq<char>)
    ensures
        !ledger.contains_key(name) <==> create_wallet_outcome(ledger, name) is Ok,
        create_wallet_outcome(create_wallet_effect(ledger, name), name) == Err::<
            (),
            LedgerError,
        >(LedgerError::AlreadyExists),
        create_wallet_effect(create_wallet_effect(ledger, name), name) == create_wallet_effect(
            ledger,
            name,
        ),
        ledger.contains_key(name) ==> create_wallet_effect(ledger, name) == ledger,
{
}

/// A covered transfer between two different accounts moves the amount.
///
/// The sender ends with `amount` less. The recipient ends with `amount`
/// more, or with exactly `amount` in a wallet opened by the transfer if it
/// had none. Both histories grow by one and the same record, so both parties
/// see the same timestamp. No other wallet is touched.
pub proof fn transfer_moves_funds(
    ledger: LedgerView,
    from: Seq<char>,
    to: Seq<char>,
    amount: nat,
    timestamp: nat,
)
    requires
        ledger.contains_key(from),
        ledger[from].balance >= amount,
        from != to,
    ensures
        transfer_outcome(ledger, from, amount) is Ok,
        ({
            let after = transfer_effect(ledger, from, to, amount, timestamp);
            let record = TransactionView { from, to, amount, timestamp };
            &&& after.dom() == ledger.dom().insert(to)
            &&& after[from].balance == ledger[from].balance - amount
            &&& after[from].history == ledger[from].history.push(record)
            &&& ledger.contains_key(to) ==> {
                &&& after[to].balance == ledger[to].balance + amount
                &&& after[to].history == ledger[to].history.push(record)
            }
            &&& !ledger.contains_key(to) ==> {
                &&& after[to].balance == amount
                &&& after[to].history == seq![record]
            }
            &&& history_outcome(after, from) is Ok
            &&& history_outcome(after, to) is Ok
            &&& history_outcome(after, from).unwrap().last() == record
            &&& history_outcome(after, to).unwrap().last() == record
            &&& forall|other: Seq<char>|
                other != from && other != to && ledger.contains_key(other) ==> #[trigger] after[other]
                    == ledger[other]
        }),
{
}

/// A covered transfer from an account to itself leaves its balance as it
/// was and files the record twice, once for each role the account plays.
pub proof fn transfer_to_self_nets_to_zero(
    ledger: LedgerView,
    name: Seq<char>,
    amount: nat,
    timestamp: nat,
)
    requires
        ledger.contains_key(name),
        ledger[name].balance >= amount,
    ensures
        transfer_outcome(ledger, name, amount) is Ok,
        ({
            let after = transfer_effect(ledger, name, name, amount, timestamp);
            let record = TransactionView { from: name, to: name, amount, timestamp };
            &&& after.dom() == ledger.dom()
            &&& after[name].balance == ledger[name].balance
            &&& after[name].history == ledger[name].history.push(record).push(record)
            &&& forall|other: Seq<char>|
                other != name && ledger.contains_key(other) ==> #[trigger] after[other]
                    == ledger[other]
        }),
{
}

/// A transfer of more than the sender holds is refused with
/// `InsufficientFunds`, and the ledger stays as it was: no balance and no
/// history changes, the sender's and the recipient's included.
pub proof fn overdrawn_transfer_is_refused(
    ledger: LedgerView,
    from: Seq<char>,
    to: Seq<char>,
    amount: nat,
    timestamp: nat,
)
    requires
        ledger.contains_key(from),
        amount > ledger[from].balance,
    ensures
        transfer_outcome(ledger, from, amount) == Err::<(), LedgerError>(
            LedgerError::InsufficientFunds,
        ),
        transfer_effect(ledger, from, to, amount, timestamp) == ledger,
{
}

/// A transfer out of an account that has no wallet is refused with
/// `SenderNotFound`, and the ledger stays as it was.
pub proof fn transfer_from_unknown_sender_is_refused(
    ledger: LedgerView,
    from: Seq<char>,
    to: Seq<char>,
    amount: nat,
    timestamp: nat,
)
    requires
        !ledger.contains_key(from),
    ensures
        transfer_outcome(ledger, from, amount) == Err::<(), LedgerError>(
            LedgerError::SenderNotFound,
        ),
        transfer_effect(ledger, from, to, amount, timestamp) == ledger,
{
}

/// Queries for an account that has no wallet fail with `NotFound`, the
/// balance query and the history query alike; for an account that has one
/// they report what the wallet holds.
pub proof fn queries_find_exactly_the_open_wallets(ledger: LedgerView, name: Seq<char>)
    ensures
        !ledger.contains_key(name) ==> {
            &&& balance_outcome(ledger, name) == Err::<int, LedgerError>(LedgerError::NotFound)
            &&& history_outcome(ledger, name) == Err::<Seq<TransactionView>, LedgerError>(
                LedgerError::NotFound,
            )
        },
        ledger.contains_key(name) ==> {
            &&& balance_outcome(ledger, name) == Ok::<int, LedgerError>(ledger[name].balance)
            &&& history_outcome(ledger, name) == Ok::<Seq<TransactionView>, LedgerError>(
                ledger[name].history,
            )
        },
{
}

/// Resetting yields the empty ledger, whatever was there, and resetting
/// again yields the empty ledger once more.
pub proof fn reset_is_idempotent(ledger: LedgerView)
    ensures
        apply(ledger, Operation::Reset) == empty_ledger(),
        apply(apply(ledger, Operation::Reset), Operation::Reset) == apply(
            ledger,
            Operation::Reset,
        ),
        forall|name: Seq<char>| !empty_ledger().contains_key(name),
{
}

/// Short of a reset, no wallet is ever closed and no history ever loses or
/// changes an entry: what a wallet had filed before an operation is the
/// beginning of what it has filed after.
pub proof fn histories_only_grow(ledger: LedgerView, op: Operation, name: Seq<char>)
    requires
        !(op is Reset),
        ledger.contains_key(name),
    ensures
        apply(ledger, op).contains_key(name),
        ledger[name].history.is_prefix_of(apply(ledger, op)[name].history),
{
}

/// Whether every history of the ledger is in the order of its timestamps,
/// with no entry stamped later than `now`.
pub open spec fn chronological(ledger: LedgerView, now: nat) -> bool {
    forall|name: Seq<char>, i: int, j: int|
        #![trigger ledger[name].history[i], ledger[name].history[j]]
        ledger.contains_key(name) && 0 <= i <= j < ledger[name].history.len() ==> {
            &&& ledger[name].history[i].timestamp <= ledger[name].history[j].timestamp
            &&& ledger[name].history[j].timestamp <= now
        }
}

/// The clock value that an operation leaves behind: its own timestamp if it
/// is a transfer, the earlier value otherwise.
pub open spec fn clock_after(op: Operation, now: nat) -> nat {
    match op {
        Operation::Transfer { timestamp, .. } => timestamp,
        _ => now,
    }
}

/// As long as the clock that stamps the transfers never runs backwards,
/// every history stays in chronological order.
pub proof fn histories_stay_chronological(ledger: LedgerView, op: Operation, now: nat)
    requires
        chronological(ledger, now),
        now <= clock_after(op, now),
    ensures
        chronological(apply(ledger, op), clock_after(op, now)),
{
    let after = apply(ledger, op);
    assert forall|name: Seq<char>, i: int, j: int|
        #![trigger after[name].history[i], after[name].history[j]]
        after.contains_key(name) && 0 <= i <= j < after[name].history.len() implies {
        &&& after[name].history[i].timestamp <= after[name].history[j].timestamp
        &&& after[name].history[j].timestamp <= clock_after(op, now)
    } by {
        if ledger.contains_key(name) {
            entries_are_kept_or_new(ledger, op, name);
        }
    }
}

/// Whether every recorded transfer moved a positive amount.
pub open spec fn amounts_positive(ledger: LedgerView) -> bool {
    forall|name: Seq<char>, i: int|
        #![trigger ledger[name].history[i]]
        ledger.contains_key(name) && 0 <= i < ledger[name].history.len()
            ==> ledger[name].history[i].amount > 0
}

/// As long as only positive amounts are transferred, only positive amounts
/// are recorded.
pub proof fn recorded_amounts_stay_positive(ledger: LedgerView, op: Operation)
    requires
        amounts_positive(ledger),
        op matches Operation::Transfer { amount, .. } ==> amount > 0,
    ensures
        amounts_positive(apply(ledger, op)),
{
    let after = apply(ledger, op);
    assert forall|name: Seq<char>, i: int|
        #![trigger after[name].history[i]]
        after.contains_key(name) && 0 <= i < after[name].history.len() implies after[name].history[i].amount
        > 0 by {
        if ledger.contains_key(name) {
            entries_are_kept_or_new(ledger, op, name);
        }
    }
}

/// The record that a transfer files.
spec fn record_of(op: Operation) -> TransactionView
    recommends
        op is Transfer,
{
    TransactionView {
        from: op->from,
        to: op->to,
        amount: op->amount,
        timestamp: op->timestamp,
    }
}

/// What an operation does to one history: after a reset the wallet is gone;
/// otherwise the old entries stay where they were and every new entry is the
/// record of the transfer at hand.
proof fn entries_are_kept_or_new(ledger: LedgerView, op: Operation, name: Seq<char>)
    requires
        ledger.contains_key(name),
    ensures
        op is Reset ==> !apply(ledger, op).contains_key(name),
        !(op is Reset) ==> {
            let before = ledger[name].history;
            let after = apply(ledger, op)[name].history;
            &&& apply(ledger, op).contains_key(name)
            &&& before.len() <= after.len()
            &&& forall|i: int| 0 <= i < before.len() ==> after[i] == before[i]
            &&& forall|i: int|
                before.len() <= i < after.len() ==> op is Transfer && #[trigger] after[i]
                    == record_of(op)
        },
{
}

/// The funds in circulation are the balance of any one wallet plus the funds
/// of the ledger without that wallet: each wallet counts once, whichever is
/// looked at first.
pub proof fn funds_count_each_wallet_once(ledger: LedgerView, name: Seq<char>)
    requires
        ledger.dom().finite(),
        ledger.contains_key(name),
    ensures
        total_funds(ledger) == ledger[name].balance + total_funds(ledger.remove(name)),
    decreases ledger.dom().len(),
{
    let first = ledger.dom().choose();
    if first != name {
        let rest = ledger.remove(first);
        funds_count_each_wallet_once(rest, name);
        funds_count_each_wallet_once(ledger.remove(name), first);
        assert(rest.remove(name) =~= ledger.remove(name).remove(first));
    }
}

/// Putting a wallet under a name makes the funds those of the ledger without
/// that name, plus the balance of the wallet.
pub proof fn funds_after_insert(ledger: LedgerView, name: Seq<char>, wallet: WalletView)
    requires
        ledger.dom().finite(),
    ensures
        total_funds(ledger.insert(name, wallet)) == total_funds(ledger.remove(name))
            + wallet.balance,
        ledger.contains_key(name) ==> total_funds(ledger) == total_funds(ledger.remove(name))
            + ledger[name].balance,
        !ledger.contains_key(name) ==> total_funds(ledger) == total_funds(ledger.remove(name)),
{
    funds_count_each_wallet_once(ledger.insert(name, wallet), name);
    assert(ledger.insert(name, wallet).remove(name) =~= ledger.remove(name));
    if ledger.contains_key(name) {
        funds_count_each_wallet_once(ledger, name);
    } else {
        assert(ledger.remove(name) =~= ledger);
    }
}

/// In a ledger without overdrawn wallets the funds are at least zero.
pub proof fn funds_never_negative(ledger: LedgerView)
    requires
        ledger.dom().finite(),
        solvent(ledger),
    ensures
        0 <= total_funds(ledger),
    decreases ledger.dom().len(),
{
    if ledger.dom().len() != 0 {
        funds_never_negative(ledger.remove(ledger.dom().choose()));
    }
}

/// In a ledger without overdrawn wallets no wallet holds more than all
/// wallets together.
pub proof fn funds_bound_each_balance(ledger: LedgerView, name: Seq<char>)
    requires
        ledger.dom().finite(),
        solvent(ledger),
        ledger.contains_key(name),
    ensures
        0 <= ledger[name].balance <= total_funds(ledger),
{
    funds_count_each_wallet_once(ledger, name);
    funds_never_negative(ledger.remove(name));
}

/// Opening a wallet puts the starting credit into circulation; a refused
/// attempt puts nothing.
pub proof fn creation_issues_starting_credit(ledger: LedgerView, name: Seq<char>)
    requires
        ledger.dom().finite(),
    ensures
        create_wallet_effect(ledger, name).dom().finite(),
        total_funds(create_wallet_effect(ledger, name)) == total_funds(ledger) + credit_issued(
            create_wallet_outcome(ledger, name),
        ),
{
    funds_after_insert(ledger, name, WalletView::opened());
}

/// A transfer, accepted or refused, neither makes nor destroys funds: what
/// the sender loses the recipient gains.
pub proof fn transfer_conserves_funds(
    ledger: LedgerView,
    from: Seq<char>,
    to: Seq<char>,
    amount: nat,
    timestamp: nat,
)
    requires
        ledger.dom().finite(),
    ensures
        transfer_effect(ledger, from, to, amount, timestamp).dom().finite(),
        total_funds(transfer_effect(ledger, from, to, amount, timestamp)) == total_funds(ledger),
{
    if transfer_outcome(ledger, from, amount) is Ok {
        let record = TransactionView { from, to, amount, timestamp };
        let paid = credit_recipient(ledger, record);
        funds_after_insert(ledger, to, paid[to]);
        funds_after_insert(paid, from, paid[from].debited(record));
    }
}

/// After any run of operations the ledger holds finitely many wallets.
pub proof fn ledger_stays_finite(ops: Seq<Operation>)
    ensures
        replay(ops).dom().finite(),
    decreases ops.len(),
{
    if ops.len() > 0 {
        ledger_stays_finite(ops.drop_last());
        let before = replay(ops.drop_last());
        match ops.last() {
            Operation::CreateWallet { name } => {
                creation_issues_starting_credit(before, name);
            },
            Operation::Transfer { from, to, amount, timestamp } => {
                transfer_conserves_funds(before, from, to, amount, timestamp);
            },
            Operation::Reset => {},
        }
    }
}

} // verus!
