use hela::{Account, AccountStore, HelaError, InMemoryStore, Transaction, TransactionStore, TransactionType};

#[test]
fn store_and_fetch() {
    let mut store = InMemoryStore::new();
    let acc = Account {
        client: 0u16,
        available: 100,
        held: 0,
        total: 100,
        locked: false,
    };
    assert!(acc.check_invariants());
    store.store_account(acc.clone()).unwrap();
    let racc = store.get_account(acc.client).unwrap();
    assert_eq!(acc, racc);
}

#[test]
fn unknown_account_is_not_found() {
    let store = InMemoryStore::new();
    assert_eq!(store.get_account(7), Err(HelaError::AccountNotFound(7)));
    assert_eq!(store.is_locked(7), Err(HelaError::AccountNotFound(7)));
}

#[test]
fn unknown_transaction_is_not_found() {
    let mut store = InMemoryStore::new();
    assert_eq!(store.get_transaction(3), Err(HelaError::TransactionNotFound(3)));
    assert_eq!(store.get_transaction_amount(3), Err(HelaError::TransactionNotFound(3)));
    assert_eq!(store.mark_transaction_as_disputed(3), Err(HelaError::TransactionNotFound(3)));
    assert_eq!(store.mark_transaction_as_undisputed(3), Err(HelaError::TransactionNotFound(3)));
}

#[test]
fn transaction_round_trip_and_flags() {
    let mut store = InMemoryStore::new();
    let txn = Transaction {
        tx_type: TransactionType::Deposit,
        client: 1,
        id: 9,
        amount: Some(250),
        disputed: false,
    };
    store.store_transaction(txn).unwrap();
    assert_eq!(store.get_transaction(9), Ok(txn));
    assert_eq!(store.get_transaction_amount(9), Ok(Some(250)));
    store.mark_transaction_as_disputed(9).unwrap();
    assert!(store.get_transaction(9).unwrap().disputed);
    store.mark_transaction_as_undisputed(9).unwrap();
    assert!(!store.get_transaction(9).unwrap().disputed);
}

#[test]
fn balance_operations() {
    let mut store = InMemoryStore::new();
    store.deposit(4, 1000).unwrap();
    let a = store.get_account(4).unwrap();
    assert_eq!((a.available, a.held, a.total, a.locked), (1000, 0, 1000, false));
    store.dispute(4, 300).unwrap();
    let a = store.get_account(4).unwrap();
    assert_eq!((a.available, a.held, a.total), (700, 300, 1000));
    store.resolve(4, 100).unwrap();
    let a = store.get_account(4).unwrap();
    assert_eq!((a.available, a.held, a.total), (800, 200, 1000));
    store.chargeback(4, 200).unwrap();
    let a = store.get_account(4).unwrap();
    assert_eq!((a.available, a.held, a.total, a.locked), (800, 0, 800, true));
    assert_eq!(store.is_locked(4), Ok(true));
    store.withdraw(4, 800).unwrap();
    let a = store.get_account(4).unwrap();
    assert_eq!((a.available, a.held, a.total), (0, 0, 0));
}

#[test]
fn withdraw_beyond_funds_fails_and_creates_account() {
    let mut store = InMemoryStore::new();
    assert_eq!(store.withdraw(5, 1), Err(HelaError::InsufficientAccountFunds(5)));
    let a = store.get_account(5).unwrap();
    assert_eq!((a.available, a.held, a.total, a.locked), (0, 0, 0, false));
}

#[test]
fn deposit_overflow_is_reported() {
    let mut store = InMemoryStore::new();
    store.deposit(6, i64::MAX).unwrap();
    assert_eq!(store.deposit(6, 1), Err(HelaError::AmountOverflow(6)));
    let a = store.get_account(6).unwrap();
    assert_eq!(a.total, i64::MAX);
}

#[test]
fn lock_account_keeps_balances() {
    let mut store = InMemoryStore::new();
    store.deposit(2, 50).unwrap();
    store.lock_account(2).unwrap();
    let a = store.get_account(2).unwrap();
    assert_eq!((a.available, a.total, a.locked), (50, 50, true));
    store.lock_account(3).unwrap();
    assert_eq!(store.is_locked(3), Ok(true));
}

#[test]
fn accounts_listed_in_client_order() {
    let mut store = InMemoryStore::new();
    store.deposit(65535, 1).unwrap();
    store.deposit(0, 2).unwrap();
    store.deposit(300, 3).unwrap();
    let accs = store.get_accounts().unwrap();
    let clients: Vec<u16> = accs.iter().map(|a| a.client).collect();
    assert_eq!(clients, vec![0, 300, 65535]);
    assert_eq!(accs[1].total, 3);
}

#[test]
fn check_invariants_detects_imbalance() {
    let acc = Account { client: 1, available: 10, held: 5, total: 14, locked: false };
    assert!(!acc.check_invariants());
    let neg = Account { client: 1, available: -50, held: 200, total: 150, locked: false };
    assert!(neg.check_invariants());
    let held_neg = Account { client: 1, available: 50, held: -10, total: 40, locked: false };
    assert!(!held_neg.check_invariants());
}

#[test]
fn default_account_is_empty() {
    let acc = Account::default();
    assert_eq!((acc.client, acc.available, acc.held, acc.total, acc.locked), (0, 0, 0, 0, false));
}
