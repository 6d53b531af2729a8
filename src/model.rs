//! Common data types, their mathematical models, and the storage traits.
use vstd::prelude::*;

use crate::errors::Fallible;

verus! {

/// Client Identifier
pub type Client = u16;

/// Monetary Amount, in fixed point: one unit of currency is `AMOUNT_SCALE`.
pub type Amount = i64;

/// Transaction Identifier
pub type TransactionId = u32;

/// Number of `Amount` steps in one unit of currency (four decimal places).
pub const AMOUNT_SCALE: i64 = 10000;

/// Transaction Type
#[derive(Clone, Copy, Debug, PartialEq, Eq, Structural)]
pub enum TransactionType {
    /// Withdrawal
    Withdrawal,
    /// Deposit
    Deposit,
    /// Dispute
    Dispute,
    /// Dispute Resolution
    Resolve,
    /// Chargeback
    Chargeback,
}

/// Transaction
#[derive(Clone, Copy, Debug, PartialEq, Eq, Structural)]
pub struct Transaction {
    /// Transaction Type
    pub tx_type: TransactionType,
    /// Client
    pub client: Client,
    /// Transaction Identifier
    pub id: TransactionId,
    /// Optional Amount
    pub amount: Option<Amount>,
    /// Transaction is disputed
    pub disputed: bool,
}

/// Account
#[derive(Clone, Copy, Debug, PartialEq, Eq, Structural)]
pub struct Account {
    /// Client
    pub client: Client,
    /// Available amount
    pub available: Amount,
    /// Held amount
    pub held: Amount,
    /// Total Amount
    pub total: Amount,
    /// Locked status
    pub locked: bool,
}

/// The mathematical value of an account: balances as unbounded integers.
pub struct AccountState {
    /// Client
    pub client: Client,
    /// Available funds
    pub available: int,
    /// Held funds
    pub held: int,
    /// Total funds
    pub total: int,
    /// Locked status
    pub locked: bool,
}

impl View for Account {
    type V = AccountState;

    open spec fn view(&self) -> AccountState {
        AccountState {
            client: self.client,
            available: self.available as int,
            held: self.held as int,
            total: self.total as int,
            locked: self.locked,
        }
    }
}

impl AccountState {
    /// Total funds are exactly available plus held funds.
    pub open spec fn balanced(self) -> bool {
        self.total == self.available + self.held
    }

    /// Every balance fits in an `Amount`.
    pub open spec fn representable(self) -> bool {
        &&& i64::MIN <= self.available <= i64::MAX
        &&& i64::MIN <= self.held <= i64::MAX
        &&& i64::MIN <= self.total <= i64::MAX
    }

    /// Effect of a deposit: available and total funds grow by `amount`.
    pub open spec fn deposited(self, amount: int) -> AccountState {
        AccountState { available: self.available + amount, total: self.total + amount, ..self }
    }

    /// Effect of a withdrawal: available and total funds shrink by `amount`.
    pub open spec fn withdrawn(self, amount: int) -> AccountState {
        AccountState { available: self.available - amount, total: self.total - amount, ..self }
    }

    /// Effect of a dispute: `amount` moves from available to held funds.
    pub open spec fn disputed(self, amount: int) -> AccountState {
        AccountState { available: self.available - amount, held: self.held + amount, ..self }
    }

    /// Effect of a resolve: `amount` moves from held back to available funds.
    pub open spec fn resolved(self, amount: int) -> AccountState {
        AccountState { available: self.available + amount, held: self.held - amount, ..self }
    }

    /// Effect of a chargeback: held and total funds shrink by `amount` and the account locks.
    pub open spec fn charged_back(self, amount: int) -> AccountState {
        AccountState {
            held: self.held - amount,
            total: self.total - amount,
            locked: true,
            ..self
        }
    }
}

/// A fresh account: all balances zero, not locked.
pub open spec fn fresh_account(client: Client) -> AccountState {
    AccountState { client, available: 0, held: 0, total: 0, locked: false }
}

/// The state of a store: accounts by client and persisted transactions by id.
pub struct Ledger {
    /// Accounts by client
    pub accounts: Map<Client, AccountState>,
    /// Persisted deposits and withdrawals by id
    pub transactions: Map<TransactionId, Transaction>,
}

/// The amount a transaction carries, as an integer (zero where it has none).
pub open spec fn amount_of(t: Transaction) -> int {
    match t.amount {
        Some(a) => a as int,
        None => 0,
    }
}

/// Deposits and withdrawals carry an amount; the other kinds only reference one.
pub open spec fn well_formed_transaction(t: Transaction) -> bool {
    (t.tx_type == TransactionType::Deposit || t.tx_type == TransactionType::Withdrawal)
        ==> t.amount is Some
}

/// A transaction that may be persisted: a deposit or withdrawal with its amount.
pub open spec fn storable_transaction(t: Transaction) -> bool {
    &&& t.tx_type == TransactionType::Deposit || t.tx_type == TransactionType::Withdrawal
    &&& t.amount is Some
}

impl Ledger {
    /// The client's account, or a fresh one where the client was never referenced.
    pub open spec fn account(self, client: Client) -> AccountState {
        if self.accounts.contains_key(client) {
            self.accounts[client]
        } else {
            fresh_account(client)
        }
    }

    /// The ledger with the client's account replaced by `a`.
    pub open spec fn with_account(self, client: Client, a: AccountState) -> Ledger {
        Ledger { accounts: self.accounts.insert(client, a), ..self }
    }

    /// The ledger with the client's account created where it was missing.
    pub open spec fn touched(self, client: Client) -> Ledger {
        self.with_account(client, self.account(client))
    }

    /// The ledger with `t` persisted under its id.
    pub open spec fn with_transaction(self, t: Transaction) -> Ledger {
        Ledger { transactions: self.transactions.insert(t.id, t), ..self }
    }

    /// The ledger with the disputed flag of the persisted transaction `id` set to `flag`.
    pub open spec fn with_dispute_flag(self, id: TransactionId, flag: bool) -> Ledger {
        Ledger {
            transactions: self.transactions.insert(
                id,
                Transaction { disputed: flag, ..self.transactions[id] },
            ),
            ..self
        }
    }

    /// Every account is stored under its client, is balanced and fits in `Amount`;
    /// every persisted transaction is stored under its id and may be persisted.
    pub open spec fn wf(self) -> bool {
        &&& forall|c: Client| #[trigger]
            self.accounts.contains_key(c) ==> {
                &&& self.accounts[c].client == c
                &&& self.accounts[c].balanced()
                &&& self.accounts[c].representable()
            }
        &&& forall|id: TransactionId| #[trigger]
            self.transactions.contains_key(id) ==> {
                &&& self.transactions[id].id == id
                &&& storable_transaction(self.transactions[id])
            }
    }
}

impl Account {
    /// Check that account invariants are not violated: total funds are
    /// available plus held funds, and no less than the available funds.
    pub fn check_invariants(&self) -> (r: bool)
        ensures
            r == (self@.balanced() && self@.total >= self@.available),
    {
        if self.total < self.available {
            return false;
        }
        // total >= available, so the difference fits in an i64 when it is non-negative
        let diff: i64 = match self.total.checked_sub(self.available) {
            Some(d) => d,
            None => return false,
        };
        diff == self.held
    }
}

/// `a` divided by 100 and rounded to the nearest integer, halves away from zero.
pub open spec fn rounded_hundredths(a: int) -> int {
    if a >= 0 {
        (a + 50) / 100
    } else {
        -((-a + 50) / 100)
    }
}

/// An amount rounded to two decimal places (halves away from zero), as a count of
/// hundredths of a unit.
pub fn amount_to_cents(a: Amount) -> (r: i64)
    ensures
        r == rounded_hundredths(a as int),
{
    let q: i64 = a / 100;
    let rem: i64 = a % 100;
    if a >= 0 {
        if rem >= 50 {
            q + 1
        } else {
            q
        }
    } else {
        // Rust's `/` truncates towards zero and `%` keeps the sign of `a`
        if rem <= -50 {
            q - 1
        } else {
            q
        }
    }
}

impl Default for Account {
    fn default() -> (r: Account)
        ensures
            r@ == fresh_account(0),
    {
        Account { client: 0, available: 0, held: 0, total: 0, locked: false }
    }
}

/// Spec-level view of a storage backend.
pub trait LedgerView {
    /// The accounts and transactions that the backend holds.
    spec fn ledger(&self) -> Ledger;
}

/// Trait providing interface to be implemented by storage backend
pub trait AccountStore: LedgerView {
    /// Check if an account has been locked.
    fn is_locked(&self, client_id: Client) -> (r: Fallible<bool>)
        ensures
            match r {
                Ok(b) => self.ledger().accounts.contains_key(client_id)
                    && b == self.ledger().accounts[client_id].locked,
                Err(e) => !self.ledger().accounts.contains_key(client_id)
                    && e == crate::errors::HelaError::AccountNotFound(client_id),
            },
    ;

    /// A chargeback is the final state of a dispute and represents the client reversing a transaction.
    /// Funds that were held have now been withdrawn: held and total funds decrease by the
    /// amount previously disputed, and the account is frozen.
    fn chargeback(&mut self, client_id: Client, amount: Amount) -> (r: Fallible<()>)
        requires
            old(self).ledger().wf(),
        ensures
            final(self).ledger().wf(),
            ({
                let a = old(self).ledger().account(client_id).charged_back(amount as int);
                if a.representable() {
                    r is Ok && final(self).ledger() == old(self).ledger().with_account(client_id, a)
                } else {
                    r == Err::<(), _>(crate::errors::HelaError::AmountOverflow(client_id))
                        && final(self).ledger() == old(self).ledger()
                }
            }),
    ;

    /// A deposit is a credit to the client's asset account: available and total funds increase.
    fn deposit(&mut self, client_id: Client, amount: Amount) -> (r: Fallible<()>)
        requires
            old(self).ledger().wf(),
        ensures
            final(self).ledger().wf(),
            ({
                let a = old(self).ledger().account(client_id).deposited(amount as int);
                if a.representable() {
                    r is Ok && final(self).ledger() == old(self).ledger().with_account(client_id, a)
                } else {
                    r == Err::<(), _>(crate::errors::HelaError::AmountOverflow(client_id))
                        && final(self).ledger() == old(self).ledger()
                }
            }),
    ;

    /// A dispute represents a client's claim that a transaction was erroneous and should be
    /// reversed: available funds decrease and held funds increase by the amount disputed,
    /// while total funds stay the same. Available funds may become negative.
    fn dispute(&mut self, client_id: Client, amount: Amount) -> (r: Fallible<()>)
        requires
            old(self).ledger().wf(),
        ensures
            final(self).ledger().wf(),
            ({
                let a = old(self).ledger().account(client_id).disputed(amount as int);
                if a.representable() {
                    r is Ok && final(self).ledger() == old(self).ledger().with_account(client_id, a)
                } else {
                    r == Err::<(), _>(crate::errors::HelaError::AmountOverflow(client_id))
                        && final(self).ledger() == old(self).ledger()
                }
            }),
    ;

    /// Get a client's Account
    fn get_account(&self, client_id: Client) -> (r: Fallible<Account>)
        ensures
            match r {
                Ok(a) => self.ledger().accounts.contains_key(client_id)
                    && a@ == self.ledger().accounts[client_id],
                Err(e) => !self.ledger().accounts.contains_key(client_id)
                    && e == crate::errors::HelaError::AccountNotFound(client_id),
            },
    ;

    /// Locks an Account, creating it where it is missing; balances are untouched.
    fn lock_account(&mut self, client_id: Client) -> (r: Fallible<()>)
        requires
            old(self).ledger().wf(),
        ensures
            final(self).ledger().wf(),
            r is Ok,
            final(self).ledger() == old(self).ledger().with_account(
                client_id,
                AccountState { locked: true, ..old(self).ledger().account(client_id) },
            ),
    ;

    /// A resolve represents a resolution to a dispute, releasing the associated held funds:
    /// held funds decrease and available funds increase by the amount no longer disputed,
    /// while total funds stay the same.
    fn resolve(&mut self, client_id: Client, amount: Amount) -> (r: Fallible<()>)
        requires
            old(self).ledger().wf(),
        ensures
            final(self).ledger().wf(),
            ({
                let a = old(self).ledger().account(client_id).resolved(amount as int);
                if a.representable() {
                    r is Ok && final(self).ledger() == old(self).ledger().with_account(client_id, a)
                } else {
                    r == Err::<(), _>(crate::errors::HelaError::AmountOverflow(client_id))
                        && final(self).ledger() == old(self).ledger()
                }
            }),
    ;

    /// Persist account in the storage backend, under its client.
    fn store_account(&mut self, acc: Account) -> (r: Fallible<()>)
        requires
            old(self).ledger().wf(),
            acc@.balanced(),
        ensures
            final(self).ledger().wf(),
            r is Ok,
            final(self).ledger() == old(self).ledger().with_account(acc.client, acc@),
    ;

    /// A withdraw is a debit to the client's asset account: available and total funds
    /// decrease. It fails, changing no balance, where available funds are below `amount`;
    /// the account is created either way.
    fn withdraw(&mut self, client_id: Client, amount: Amount) -> (r: Fallible<()>)
        requires
            old(self).ledger().wf(),
        ensures
            final(self).ledger().wf(),
            ({
                let acc = old(self).ledger().account(client_id);
                let a = acc.withdrawn(amount as int);
                if acc.available < amount {
                    r == Err::<(), _>(crate::errors::HelaError::InsufficientAccountFunds(client_id))
                        && final(self).ledger() == old(self).ledger().touched(client_id)
                } else if a.representable() {
                    r is Ok && final(self).ledger() == old(self).ledger().with_account(client_id, a)
                } else {
                    r == Err::<(), _>(crate::errors::HelaError::AmountOverflow(client_id))
                        && final(self).ledger() == old(self).ledger()
                }
            }),
    ;

    /// All accounts stored by the storage backend, in increasing order of client.
    fn get_accounts(&self) -> (r: Fallible<Vec<Account>>)
        requires
            self.ledger().wf(),
        ensures
            match r {
                Ok(v) => accounts_listed(self.ledger().accounts, v@),
                Err(_) => false,
            },
    ;
}

/// `v` lists exactly the accounts of `accounts`, each once, in increasing order of client.
pub open spec fn accounts_listed(accounts: Map<Client, AccountState>, v: Seq<Account>) -> bool {
    &&& forall|i: int, j: int| 0 <= i < j < v.len() ==> v[i].client < v[j].client
    &&& forall|i: int|
        0 <= i < v.len() ==> accounts.contains_key(#[trigger] v[i].client) && v[i]@
            == accounts[v[i].client]
    &&& forall|c: Client| #[trigger]
        accounts.contains_key(c) ==> exists|i: int| 0 <= i < v.len() && v[i].client == c
}

/// An interface implemented by Transactions storage backends
pub trait TransactionStore: LedgerView {
    /// Fetch a Transaction
    fn get_transaction(&self, id: TransactionId) -> (r: Fallible<Transaction>)
        ensures
            match r {
                Ok(t) => self.ledger().transactions.contains_key(id) && t
                    == self.ledger().transactions[id],
                Err(e) => !self.ledger().transactions.contains_key(id) && e
                    == crate::errors::HelaError::TransactionNotFound(id),
            },
    ;

    /// Fetch a Transaction Amount
    fn get_transaction_amount(&self, id: TransactionId) -> (r: Fallible<Option<Amount>>)
        ensures
            match r {
                Ok(a) => self.ledger().transactions.contains_key(id) && a
                    == self.ledger().transactions[id].amount,
                Err(e) => !self.ledger().transactions.contains_key(id) && e
                    == crate::errors::HelaError::TransactionNotFound(id),
            },
    ;

    /// Persist a transaction in the storage backend, under its id
    fn store_transaction(&mut self, txn: Transaction) -> (r: Fallible<()>)
        requires
            old(self).ledger().wf(),
            storable_transaction(txn),
        ensures
            final(self).ledger().wf(),
            r is Ok,
            final(self).ledger() == old(self).ledger().with_transaction(txn),
    ;

    /// Mark a transaction as disputed
    fn mark_transaction_as_disputed(&mut self, id: TransactionId) -> (r: Fallible<()>)
        requires
            old(self).ledger().wf(),
        ensures
            final(self).ledger().wf(),
            if old(self).ledger().transactions.contains_key(id) {
                r is Ok && final(self).ledger() == old(self).ledger().with_dispute_flag(id, true)
            } else {
                r == Err::<(), _>(crate::errors::HelaError::TransactionNotFound(id))
                    && final(self).ledger() == old(self).ledger()
            },
    ;

    /// Mark a transaction as undisputed
    fn mark_transaction_as_undisputed(&mut self, id: TransactionId) -> (r: Fallible<()>)
        requires
            old(self).ledger().wf(),
        ensures
            final(self).ledger().wf(),
            if old(self).ledger().transactions.contains_key(id) {
                r is Ok && final(self).ledger() == old(self).ledger().with_dispute_flag(id, false)
            } else {
                r == Err::<(), _>(crate::errors::HelaError::TransactionNotFound(id))
                    && final(self).ledger() == old(self).ledger()
            },
    ;
}

/// A combined storage interface for Accounts and Transactions
pub trait Storage: AccountStore + TransactionStore {

}

} // verus!
