use payments_engine::amount::Amount;
use payments_engine::service::AccountService;
use payments_engine::transaction::{Transaction, TransactionType};

#[test]
fn test_withdrawal_with_insufficient_funds() {
    let mut service = AccountService::new();
    service.record_transaction(Transaction {
        kind: TransactionType::Deposit,
        client: 1,
        tx: 1,
        amount: Some(Amount::from_integer(50)),
    });
    service.record_transaction(Transaction {
        kind: TransactionType::Withdrawal,
        client: 1,
        tx: 2,
        amount: Some(Amount::from_integer(100)),
    });

    let account = service.summary().get(&1);
    assert!(account.is_some());

    let account = account.unwrap();
    assert_eq!(account.available, Amount::from_integer(50));
    assert_eq!(account.total, Amount::from_integer(50));
    assert_eq!(account.held, Amount::zero());
    assert_eq!(account.locked, false);
}

#[test]
fn test_dispute() {
    let mut service = AccountService::new();
    service.record_transaction(Transaction {
        kind: TransactionType::Deposit,
        client: 1,
        tx: 1,
        amount: Some(Amount::from_integer(50)),
    });
    service.record_transaction(Transaction {
        kind: TransactionType::Dispute,
        client: 1,
        tx: 1,
        amount: None,
    });

    let account = service.summary().get(&1);
    assert!(account.is_some());

    let account = account.unwrap();
    assert_eq!(account.available, Amount::zero());
    assert_eq!(account.total, Amount::from_integer(50));
    assert_eq!(account.held, Amount::from_integer(50));
    assert_eq!(account.locked, false);
}

#[test]
fn test_dispute_with_invalid_tx() {
    let mut service = AccountService::new();
    service.record_transaction(Transaction {
        kind: TransactionType::Deposit,
        client: 1,
        tx: 1,
        amount: Some(Amount::from_integer(50)),
    });
    service.record_transaction(Transaction {
        kind: TransactionType::Dispute,
        client: 1,
        tx: 2,
        amount: None,
    });

    let account = service.summary().get(&1);
    assert!(account.is_some());

    let account = account.unwrap();
    assert_eq!(account.available, Amount::from_integer(50));
    assert_eq!(account.total, Amount::from_integer(50));
    assert_eq!(account.held, Amount::zero());
    assert_eq!(account.locked, false);
}

#[test]
fn test_dispute_with_resolve() {
    let mut service = AccountService::new();
    service.record_transaction(Transaction {
        kind: TransactionType::Deposit,
        client: 1,
        tx: 1,
        amount: Some(Amount::from_integer(50)),
    });
    service.record_transaction(Transaction {
        kind: TransactionType::Dispute,
        client: 1,
        tx: 1,
        amount: None,
    });
    service.record_transaction(Transaction {
        kind: TransactionType::Resolve,
        client: 1,
        tx: 1,
        amount: None,
    });

    let account = service.summary().get(&1);
    assert!(account.is_some());

    let account = account.unwrap();
    assert_eq!(account.available, Amount::from_integer(50));
    assert_eq!(account.total, Amount::from_integer(50));
    assert_eq!(account.held, Amount::zero());
    assert_eq!(account.locked, false);
}

#[test]
fn test_dispute_with_resolve_on_invalid_tx() {
    let mut service = AccountService::new();
    service.record_transaction(Transaction {
        kind: TransactionType::Deposit,
        client: 1,
        tx: 1,
        amount: Some(Amount::from_integer(50)),
    });
    service.record_transaction(Transaction {
        kind: TransactionType::Dispute,
        client: 1,
        tx: 1,
        amount: None,
    });
    service.record_transaction(Transaction {
        kind: TransactionType::Resolve,
        client: 1,
        tx: 2,
        amount: None,
    });

    let account = service.summary().get(&1);
    assert!(account.is_some());

    let account = account.unwrap();
    assert_eq!(account.available, Amount::zero());
    assert_eq!(account.total, Amount::from_integer(50));
    assert_eq!(account.held, Amount::from_integer(50));
    assert_eq!(account.locked, false);
}

#[test]
fn test_chargeback() {
    let mut service = AccountService::new();
    service.record_transaction(Transaction {
        kind: TransactionType::Deposit,
        client: 1,
        tx: 1,
        amount: Some(Amount::from_integer(50)),
    });
    service.record_transaction(Transaction {
        kind: TransactionType::Dispute,
        client: 1,
        tx: 1,
        amount: None,
    });
    service.record_transaction(Transaction {
        kind: TransactionType::Chargeback,
        client: 1,
        tx: 1,
        amount: None,
    });

    let account = service.summary().get(&1);
    assert!(account.is_some());

    let account = account.unwrap();
    assert_eq!(account.available, Amount::zero());
    assert_eq!(account.total, Amount::zero());
    assert_eq!(account.held, Amount::zero());
    assert_eq!(account.locked, true);
}

#[test]
fn test_chargeback_on_disputed_transaction_only() {
    let mut service = AccountService::new();
    service.record_transaction(Transaction {
        kind: TransactionType::Deposit,
        client: 1,
        tx: 1,
        amount: Some(Amount::from_integer(50)),
    });
    service.record_transaction(Transaction {
        kind: TransactionType::Deposit,
        client: 1,
        tx: 2,
        amount: Some(Amount::from_integer(10)),
    });
    service.record_transaction(Transaction {
        kind: TransactionType::Dispute,
        client: 1,
        tx: 1,
        amount: None,
    });
    service.record_transaction(Transaction {
        kind: TransactionType::Chargeback,
        client: 1,
        tx: 1,
        amount: None,
    });

    let account = service.summary().get(&1);
    assert!(account.is_some());

    let account = account.unwrap();
    assert_eq!(account.available, Amount::from_integer(10));
    assert_eq!(account.total, Amount::from_integer(10));
    assert_eq!(account.held, Amount::zero());
    assert_eq!(account.locked, true);
}

#[test]
fn test_revert_of_resolve_on_chargeback() {
    let mut service = AccountService::new();
    service.record_transaction(Transaction {
        kind: TransactionType::Deposit,
        client: 1,
        tx: 1,
        amount: Some(Amount::from_integer(50)),
    });
    service.record_transaction(Transaction {
        kind: TransactionType::Dispute,
        client: 1,
        tx: 1,
        amount: None,
    });
    service.record_transaction(Transaction {
        kind: TransactionType::Resolve,
        client: 1,
        tx: 1,
        amount: None,
    });
    service.record_transaction(Transaction {
        kind: TransactionType::Chargeback,
        client: 1,
        tx: 1,
        amount: None,
    });

    let account = service.summary().get(&1);
    assert!(account.is_some());

    let account = account.unwrap();
    assert_eq!(account.available, Amount::zero());
    assert_eq!(account.total, Amount::zero());
    assert_eq!(account.held, Amount::zero());
    assert_eq!(account.locked, true);
}
