use candid::Principal;
use openchat_payment_backend::error::LedgerError;
use openchat_payment_backend::identity::{CallerId, MAX_PRINCIPAL_LEN};
use openchat_payment_backend::ledger::Ledger;

fn caller(bytes: &[u8]) -> CallerId {
    CallerId::new(bytes.to_vec()).unwrap()
}

#[test]
fn caller_id_accepts_up_to_the_longest_principal() {
    assert_eq!(MAX_PRINCIPAL_LEN, 29);
    assert!(CallerId::new(vec![]).is_some());
    assert!(CallerId::new(vec![7; 29]).is_some());
    assert!(CallerId::new(vec![7; 30]).is_none());
    assert!(CallerId::new(vec![0; 64]).is_none());
}

#[test]
fn caller_id_keeps_its_bytes() {
    let id = caller(&[1, 2, 3]);
    assert_eq!(id.as_bytes(), &[1, 2, 3]);
}

#[test]
fn account_name_is_the_text_of_the_principal() {
    assert_eq!(caller(&[]).account_name(), "aaaaa-aa");
    assert_eq!(caller(&[4]).account_name(), "2vxsx-fae");
    assert_eq!(
        caller(&[0xef, 0xcd, 0xab, 0, 0, 0, 0, 0, 1]).account_name(),
        "2chl6-4hpzw-vqaaa-aaaaa-c"
    );
}

#[test]
fn account_name_agrees_with_the_principal_itself() {
    let bytes: Vec<u8> = (1..=29).collect();
    let principal = Principal::from_slice(&bytes);
    assert_eq!(caller(&bytes).account_name(), principal.to_text());
    assert_eq!(caller(&bytes).account_name(), principal.to_string());
    assert_eq!(caller(Principal::anonymous().as_slice()).account_name(), "2vxsx-fae");
}

#[test]
fn account_name_is_the_same_every_time() {
    let id = caller(&[9, 8, 7, 6]);
    assert_eq!(id.account_name(), id.account_name());
    assert_eq!(id.account_name(), caller(&[9, 8, 7, 6]).account_name());
    assert_ne!(id.account_name(), caller(&[9, 8, 7, 5]).account_name());
}

#[test]
fn payment_is_booked_under_the_callers_account() {
    let anonymous = caller(&[4]);
    let mut ledger = Ledger::new();
    assert_eq!(ledger.create_wallet("2vxsx-fae".to_string()), Ok(()));
    assert_eq!(ledger.create_wallet("bob".to_string()), Ok(()));

    assert_eq!(ledger.send_payment(&anonymous, "bob".to_string(), 300, 77), Ok(()));
    assert_eq!(ledger.get_balance("2vxsx-fae".to_string()), Ok(700));
    assert_eq!(ledger.get_balance("bob".to_string()), Ok(1300));
    let received = ledger.get_transaction_history("bob".to_string()).unwrap();
    assert_eq!(received.len(), 1);
    assert_eq!(received[0].sender(), "2vxsx-fae");
    assert_eq!(received[0].recipient(), "bob");
    assert_eq!(received[0].amount(), 300);
    assert_eq!(received[0].timestamp(), 77);
    let sent = ledger.get_transaction_history("2vxsx-fae".to_string()).unwrap();
    assert_eq!(sent.len(), 1);
    assert_eq!(sent[0], received[0]);
}

#[test]
fn payment_from_a_caller_without_wallet_is_refused() {
    let mut ledger = Ledger::new();
    assert_eq!(ledger.create_wallet("bob".to_string()), Ok(()));
    assert_eq!(
        ledger.send_payment(&caller(&[4]), "bob".to_string(), 1, 1),
        Err(LedgerError::SenderNotFound)
    );
    assert_eq!(ledger.get_balance("bob".to_string()), Ok(1000));
    assert_eq!(ledger.get_balance("2vxsx-fae".to_string()), Err(LedgerError::NotFound));
}

#[test]
fn payment_beyond_the_callers_balance_is_refused() {
    let mut ledger = Ledger::new();
    assert_eq!(ledger.create_wallet("aaaaa-aa".to_string()), Ok(()));
    assert_eq!(
        ledger.send_payment(&caller(&[]), "bob".to_string(), 1001, 1),
        Err(LedgerError::InsufficientFunds)
    );
    assert_eq!(ledger.get_balance("aaaaa-aa".to_string()), Ok(1000));
    assert_eq!(ledger.get_balance("bob".to_string()), Err(LedgerError::NotFound));
}

#[test]
fn wallet_under_the_raw_bytes_is_not_the_callers() {
    let mut ledger = Ledger::new();
    assert_eq!(ledger.create_wallet("\u{4}".to_string()), Ok(()));
    assert_eq!(
        ledger.send_payment(&caller(&[4]), "bob".to_string(), 1, 1),
        Err(LedgerError::SenderNotFound)
    );
}
