//! In-memory storage backend.
use std::collections::HashMap;
use vstd::prelude::*;

use crate::errors::{Fallible, HelaError};
use crate::model::{
    Account, AccountState, AccountStore, Amount, Client, Ledger, LedgerView, Storage, Transaction,
    TransactionId, TransactionStore,
};

verus! {

broadcast use vstd::std_specs::hash::group_hash_axioms;

/// In Memory data store for Accounts and Transaction
#[derive(Debug, Clone)]
pub struct InMemoryStore {
    accounts: HashMap<Client, Account>,
    transactions: HashMap<TransactionId, Transaction>,
}

impl LedgerView for InMemoryStore {
    closed spec fn ledger(&self) -> Ledger {
        Ledger {
            accounts: self.accounts@.map_values(|a: Account| a@),
            transactions: self.transactions@,
        }
    }
}

impl InMemoryStore {
    /// create an empty store
    pub fn new() -> (r: InMemoryStore)
        ensures
            r.ledger().accounts == Map::<Client, AccountState>::empty(),
            r.ledger().transactions == Map::<TransactionId, Transaction>::empty(),
            r.ledger().wf(),
    {
        let r = InMemoryStore { accounts: HashMap::new(), transactions: HashMap::new() };
        assert(r.ledger().accounts =~= Map::<Client, AccountState>::empty());
        r
    }

    /// The client's account, or a fresh one where the client was never referenced.
    fn account_entry(&self, client_id: Client) -> (r: Account)
        ensures
            r@ == self.ledger().account(client_id),
    {
        match self.accounts.get(&client_id) {
            Some(acc) => *acc,
            None => Account { client: client_id, available: 0, held: 0, total: 0, locked: false },
        }
    }

    /// Replace the account of `client_id` by `acc`.
    fn put_account(&mut self, client_id: Client, acc: Account)
        ensures
            final(self).ledger() == old(self).ledger().with_account(client_id, acc@),
    {
        self.accounts.insert(client_id, acc);
        assert(final(self).ledger().accounts =~= old(self).ledger().accounts.insert(
            client_id,
            acc@,
        ));
    }
}

impl AccountStore for InMemoryStore {
    fn is_locked(&self, client_id: Client) -> (r: Fallible<bool>) {
        match self.get_account(client_id) {
            Ok(acc) => Ok(acc.locked),
            Err(e) => Err(e),
        }
    }

    fn chargeback(&mut self, client_id: Client, amount: Amount) -> (r: Fallible<()>) {
        let acc = self.account_entry(client_id);
        let held = match acc.held.checked_sub(amount) {
            Some(v) => v,
            None => return Err(HelaError::AmountOverflow(client_id)),
        };
        let total = match acc.total.checked_sub(amount) {
            Some(v) => v,
            None => return Err(HelaError::AmountOverflow(client_id)),
        };
        self.put_account(client_id, Account { held, total, locked: true, ..acc });
        Ok(())
    }

    fn deposit(&mut self, client_id: Client, amount: Amount) -> (r: Fallible<()>) {
        let acc = self.account_entry(client_id);
        let available = match acc.available.checked_add(amount) {
            Some(v) => v,
            None => return Err(HelaError::AmountOverflow(client_id)),
        };
        let total = match acc.total.checked_add(amount) {
            Some(v) => v,
            None => return Err(HelaError::AmountOverflow(client_id)),
        };
        self.put_account(client_id, Account { available, total, ..acc });
        Ok(())
    }

    fn dispute(&mut self, client_id: Client, amount: Amount) -> (r: Fallible<()>) {
        let acc = self.account_entry(client_id);
        let available = match acc.available.checked_sub(amount) {
            Some(v) => v,
            None => return Err(HelaError::AmountOverflow(client_id)),
        };
        let held = match acc.held.checked_add(amount) {
            Some(v) => v,
            None => return Err(HelaError::AmountOverflow(client_id)),
        };
        self.put_account(client_id, Account { available, held, ..acc });
        Ok(())
    }

    fn get_account(&self, client_id: Client) -> (r: Fallible<Account>) {
        match self.accounts.get(&client_id) {
            Some(acc) => Ok(*acc),
            None => Err(HelaError::AccountNotFound(client_id)),
        }
    }

    fn lock_account(&mut self, client_id: Client) -> (r: Fallible<()>) {
        let acc = self.account_entry(client_id);
        self.put_account(client_id, Account { locked: true, ..acc });
        Ok(())
    }

    fn resolve(&mut self, client_id: Client, amount: Amount) -> (r: Fallible<()>) {
        let acc = self.account_entry(client_id);
        let held = match acc.held.checked_sub(amount) {
            Some(v) => v,
            None => return Err(HelaError::AmountOverflow(client_id)),
        };
        let available = match acc.available.checked_add(amount) {
            Some(v) => v,
            None => return Err(HelaError::AmountOverflow(client_id)),
        };
        self.put_account(client_id, Account { available, held, ..acc });
        Ok(())
    }

    fn store_account(&mut self, acc: Account) -> (r: Fallible<()>) {
        self.put_account(acc.client, acc);
        Ok(())
    }

    fn withdraw(&mut self, client_id: Client, amount: Amount) -> (r: Fallible<()>) {
        let acc = self.account_entry(client_id);
        if acc.available < amount {
            self.put_account(client_id, acc);
            return Err(HelaError::InsufficientAccountFunds(client_id));
        }
        let available = match acc.available.checked_sub(amount) {
            Some(v) => v,
            None => return Err(HelaError::AmountOverflow(client_id)),
        };
        let total = match acc.total.checked_sub(amount) {
            Some(v) => v,
            None => return Err(HelaError::AmountOverflow(client_id)),
        };
        self.put_account(client_id, Account { available, total, ..acc });
        Ok(())
    }

    fn get_accounts(&self) -> (r: Fallible<Vec<Account>>) {
        // Clients are 16-bit ids: walking the whole id space lists the accounts in client order.
        let mut out: Vec<Account> = Vec::new();
        let mut c: u32 = 0;
        while c <= 0xffff
            invariant
                c <= 0x10000,
                forall|i: int, j: int| 0 <= i < j < out@.len() ==> out@[i].client < out@[j].client,
                forall|i: int| 0 <= i < out@.len() ==> out@[i].client < c,
                forall|i: int|
                    0 <= i < out@.len() ==> self.ledger().accounts.contains_key(
                        #[trigger] out@[i].client,
                    ) && out@[i]@ == self.ledger().accounts[out@[i].client],
                self.ledger().wf(),
                forall|k: Client| #[trigger]
                    self.ledger().accounts.contains_key(k) && (k as u32) < c ==> exists|i: int|
                        0 <= i < out@.len() && out@[i].client == k,
            decreases 0x10000 - c,
        {
            let client_id = c as u16;
            let ghost before = out@;
            match self.accounts.get(&client_id) {
                Some(acc) => {
                    assert(self.ledger().accounts.contains_key(client_id));
                    assert(self.ledger().accounts[client_id] == acc@);
                    out.push(*acc);
                    assert(out@[out@.len() - 1].client == client_id);
                    assert forall|k: Client| #[trigger]
                        self.ledger().accounts.contains_key(k) && (k as u32) < c + 1 implies exists|
                        i: int,
                    | 0 <= i < out@.len() && out@[i].client == k by {
                        if k as u32 == c {
                            assert(out@[out@.len() - 1].client == k);
                        } else {
                            let i = choose|i: int| 0 <= i < before.len() && before[i].client == k;
                            assert(out@[i] == before[i]);
                        }
                    }
                },
                None => {
                    assert forall|k: Client| #[trigger]
                        self.ledger().accounts.contains_key(k) && (k as u32) < c + 1 implies (k as u32)
                        < c by {
                        if k as u32 == c {
                            assert(k == client_id);
                        }
                    }
                },
            }
            c = c + 1;
        }
        Ok(out)
    }
}

impl TransactionStore for InMemoryStore {
    fn get_transaction(&self, id: TransactionId) -> (r: Fallible<Transaction>) {
        match self.transactions.get(&id) {
            Some(txn) => Ok(*txn),
            None => Err(HelaError::TransactionNotFound(id)),
        }
    }

    fn get_transaction_amount(&self, id: TransactionId) -> (r: Fallible<Option<Amount>>) {
        match self.get_transaction(id) {
            Ok(txn) => Ok(txn.amount),
            Err(e) => Err(e),
        }
    }

    fn store_transaction(&mut self, txn: Transaction) -> (r: Fallible<()>) {
        self.transactions.insert(txn.id, txn);
        assert(final(self).ledger().accounts == old(self).ledger().accounts);
        Ok(())
    }

    fn mark_transaction_as_disputed(&mut self, id: TransactionId) -> (r: Fallible<()>) {
        match self.transactions.get(&id) {
            Some(txn) => {
                let marked = Transaction { disputed: true, ..*txn };
                self.transactions.insert(id, marked);
                assert(final(self).ledger().accounts == old(self).ledger().accounts);
                Ok(())
            },
            None => Err(HelaError::TransactionNotFound(id)),
        }
    }

    fn mark_transaction_as_undisputed(&mut self, id: TransactionId) -> (r: Fallible<()>) {
        match self.transactions.get(&id) {
            Some(txn) => {
                let marked = Transaction { disputed: false, ..*txn };
                self.transactions.insert(id, marked);
                assert(final(self).ledger().accounts == old(self).ledger().accounts);
                Ok(())
            },
            None => Err(HelaError::TransactionNotFound(id)),
        }
    }
}

impl Storage for InMemoryStore {

}

impl Default for InMemoryStore {
    fn default() -> (r: InMemoryStore)
        ensures
            r.ledger().accounts == Map::<Client, AccountState>::empty(),
            r.ledger().transactions == Map::<TransactionId, Transaction>::empty(),
    {
        InMemoryStore::new()
    }
}

} // verus!
