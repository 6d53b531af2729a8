use hela::{
    amount_to_cents, Account, HelaError, InMemoryStore, PaymentEngine, Transaction,
    TransactionType,
};

fn txn(tx_type: TransactionType, client: u16, id: u32, amount: Option<i64>) -> Transaction {
    Transaction { tx_type, client, id, amount, disputed: false }
}

fn deposit(client: u16, id: u32, amount: i64) -> Transaction {
    txn(TransactionType::Deposit, client, id, Some(amount))
}

fn withdrawal(client: u16, id: u32, amount: i64) -> Transaction {
    txn(TransactionType::Withdrawal, client, id, Some(amount))
}

fn dispute(client: u16, id: u32) -> Transaction {
    txn(TransactionType::Dispute, client, id, None)
}

fn resolve(client: u16, id: u32) -> Transaction {
    txn(TransactionType::Resolve, client, id, None)
}

fn chargeback(client: u16, id: u32) -> Transaction {
    txn(TransactionType::Chargeback, client, id, None)
}

fn run(txns: Vec<Transaction>) -> Vec<Account> {
    let mut engine = PaymentEngine::new(InMemoryStore::new());
    engine.execute_transactions(txns).unwrap();
    engine.accounts().unwrap()
}

fn balances(a: &Account) -> (u16, i64, i64, i64, bool) {
    (a.client, a.available, a.held, a.total, a.locked)
}

#[test]
fn test_dispute() {
    let accs = run(vec![deposit(2, 12, 17700), dispute(2, 12), deposit(2, 13, 17700), deposit(2, 14, 17700)]);
    assert_eq!(accs.len(), 1);
    assert_eq!(balances(&accs[0]), (2, 35400, 17700, 53100, false));
}

#[test]
fn test_chargeback() {
    let accs = run(vec![deposit(1, 1, 1001000), chargeback(1, 1), dispute(1, 1), chargeback(1, 1)]);
    assert_eq!(accs.len(), 1);
    assert_eq!(balances(&accs[0]), (1, 0, 0, 0, true));
}

#[test]
fn test_resolution() {
    let accs = run(vec![
        deposit(1, 1, 1001000),
        dispute(1, 1),
        deposit(2, 12, 17700),
        dispute(2, 12),
        resolve(2, 12),
        resolve(2, 12),
        resolve(2, 12),
        resolve(2, 12),
    ]);
    assert_eq!(accs.len(), 2);
    assert_eq!(balances(&accs[0]), (1, 0, 1001000, 1001000, false));
    assert_eq!(balances(&accs[1]), (2, 17700, 0, 17700, false));
}

#[test]
fn test_scenario_1() {
    let accs = run(vec![
        deposit(1, 1, 10000),
        deposit(1, 3, 20000),
        withdrawal(1, 5, 15000),
        dispute(1, 3),
        deposit(2, 2, 20000),
        withdrawal(2, 4, 30000),
    ]);
    assert_eq!(accs.len(), 2);
    assert_eq!(balances(&accs[0]), (1, -5000, 20000, 15000, false));
    assert_eq!(balances(&accs[1]), (2, 20000, 0, 20000, false));
    assert_eq!(amount_to_cents(accs[0].available), -50);
}

#[test]
fn balances_stay_consistent_with_negative_available() {
    let accs = run(vec![
        deposit(3, 1, 5000),
        withdrawal(3, 2, 4000),
        dispute(3, 1),
        resolve(3, 1),
        dispute(3, 1),
        chargeback(3, 1),
    ]);
    let a = &accs[0];
    assert_eq!(a.total, a.available + a.held);
    assert_eq!(balances(a), (3, -4000, 0, -4000, true));
}

#[test]
fn failed_withdrawal_is_not_persisted() {
    // A later dispute of the failed withdrawal's id finds nothing to dispute.
    let accs = run(vec![deposit(2, 2, 20000), withdrawal(2, 4, 30000), dispute(2, 4)]);
    assert_eq!(balances(&accs[0]), (2, 20000, 0, 20000, false));
}

#[test]
fn withdrawal_on_new_client_creates_empty_account() {
    let accs = run(vec![withdrawal(8, 1, 100)]);
    assert_eq!(balances(&accs[0]), (8, 0, 0, 0, false));
}

#[test]
fn dispute_of_unknown_transaction_is_ignored() {
    let accs = run(vec![deposit(1, 1, 500), dispute(1, 99)]);
    assert_eq!(balances(&accs[0]), (1, 500, 0, 500, false));
}

#[test]
fn resolve_then_chargeback_has_no_effect() {
    let accs = run(vec![deposit(1, 1, 500), dispute(1, 1), resolve(1, 1), chargeback(1, 1), resolve(1, 1)]);
    assert_eq!(balances(&accs[0]), (1, 500, 0, 500, false));
}

#[test]
fn chargeback_moves_exact_amount() {
    let accs = run(vec![deposit(1, 1, 700), deposit(1, 2, 300), dispute(1, 2), chargeback(1, 2)]);
    assert_eq!(balances(&accs[0]), (1, 700, 0, 700, true));
}

#[test]
fn overflow_stops_the_run() {
    let mut engine = PaymentEngine::new(InMemoryStore::new());
    let r = engine.execute_transactions(vec![deposit(1, 1, i64::MAX), deposit(1, 2, 1), deposit(2, 3, 5)]);
    assert_eq!(r, Err(HelaError::AmountOverflow(1)));
    let accs = engine.accounts().unwrap();
    assert_eq!(accs.len(), 1);
    assert_eq!(accs[0].total, i64::MAX);
}

#[test]
fn single_transaction_execution() {
    let mut engine = PaymentEngine::new(InMemoryStore::new());
    assert_eq!(engine.execute_transaction(deposit(9, 1, 42)), Ok(()));
    assert_eq!(engine.execute_transaction(withdrawal(9, 2, 43)), Ok(()));
    let accs = engine.accounts().unwrap();
    assert_eq!(balances(&accs[0]), (9, 42, 0, 42, false));
}

#[test]
fn cents_rounding() {
    assert_eq!(amount_to_cents(17700), 177);
    assert_eq!(amount_to_cents(12345), 123);
    assert_eq!(amount_to_cents(12350), 124);
    assert_eq!(amount_to_cents(-12350), -124);
    assert_eq!(amount_to_cents(-12349), -123);
    assert_eq!(amount_to_cents(0), 0);
}
