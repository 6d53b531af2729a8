//! The transaction engine: the rules by which each kind of transaction changes the ledger.
use vstd::prelude::*;

use crate::errors::{Fallible, HelaError};
use crate::model::{
    amount_of, well_formed_transaction, Account, AccountStore, Ledger, LedgerView, Storage,
    Transaction, TransactionStore, TransactionType, accounts_listed,
};

verus! {

/// The ledger after applying one transaction, or `None` where a resulting balance
/// would not fit in an `Amount`.
pub open spec fn apply(l: Ledger, t: Transaction) -> Option<Ledger> {
    let c = t.client;
    let acc = l.account(c);
    let known = l.transactions.contains_key(t.id);
    let prev = l.transactions[t.id];
    match t.tx_type {
        TransactionType::Deposit => {
            let a = acc.deposited(amount_of(t));
            if a.representable() {
                Some(l.with_account(c, a).with_transaction(t))
            } else {
                None
            }
        },
        TransactionType::Withdrawal => {
            let a = acc.withdrawn(amount_of(t));
            if acc.available < amount_of(t) {
                Some(l.touched(c))
            } else if a.representable() {
                Some(l.with_account(c, a).with_transaction(t))
            } else {
                None
            }
        },
        TransactionType::Dispute => {
            let a = acc.disputed(amount_of(prev));
            if !known {
                Some(l)
            } else if a.representable() {
                Some(l.with_account(c, a).with_dispute_flag(t.id, true))
            } else {
                None
            }
        },
        TransactionType::Resolve => {
            let a = acc.resolved(amount_of(prev));
            if !known || !prev.disputed {
                Some(l)
            } else if a.representable() {
                Some(l.with_account(c, a).with_dispute_flag(t.id, false))
            } else {
                None
            }
        },
        TransactionType::Chargeback => {
            let a = acc.charged_back(amount_of(prev));
            if !known || !prev.disputed {
                Some(l)
            } else if a.representable() {
                Some(l.with_account(c, a))
            } else {
                None
            }
        },
    }
}

/// The ledger after applying `ts` in order, or `None` where one of them overflows.
pub open spec fn apply_all(l: Ledger, ts: Seq<Transaction>) -> Option<Ledger>
    decreases ts.len(),
{
    if ts.len() == 0 {
        Some(l)
    } else {
        match apply_all(l, ts.drop_last()) {
            Some(m) => apply(m, ts.last()),
            None => None,
        }
    }
}

/// Once a prefix of `ts` overflows, all of `ts` does.
pub proof fn lemma_apply_all_stops(l: Ledger, ts: Seq<Transaction>, k: int)
    requires
        0 <= k <= ts.len(),
        apply_all(l, ts.take(k)) is None,
    ensures
        apply_all(l, ts) is None,
    decreases ts.len() - k,
{
    if k == ts.len() {
        assert(ts.take(k) == ts);
    } else {
        assert(ts.take(k + 1).drop_last() == ts.take(k));
        lemma_apply_all_stops(l, ts, k + 1);
    }
}

/// Payments transactions processor
pub struct PaymentEngine<S: Storage> {
    store: S,
}

impl<S: Storage> PaymentEngine<S> {
    /// The state of the engine's store.
    pub closed spec fn ledger(&self) -> Ledger {
        self.store.ledger()
    }

    /// create a new engine
    pub fn new(store: S) -> (r: PaymentEngine<S>)
        ensures
            r.ledger() == store.ledger(),
    {
        PaymentEngine { store }
    }

    /// Execute a single transaction
    pub fn execute_transaction(&mut self, txn: Transaction) -> (r: Fallible<()>)
        requires
            old(self).ledger().wf(),
            well_formed_transaction(txn),
        ensures
            final(self).ledger().wf(),
            match apply(old(self).ledger(), txn) {
                Some(l) => r is Ok && final(self).ledger() == l,
                None => r == Err::<(), _>(HelaError::AmountOverflow(txn.client))
                    && final(self).ledger() == old(self).ledger(),
            },
    {
        match txn.tx_type {
            TransactionType::Deposit => {
                let amount = txn.amount.unwrap();
                match self.store.deposit(txn.client, amount) {
                    Ok(_) => {},
                    Err(e) => return Err(e),
                }
                match self.store.store_transaction(txn) {
                    Ok(_) => {},
                    Err(e) => return Err(e),
                }
            },
            // A withdrawal beyond the available funds fails without changing any balance:
            // the engine absorbs InsufficientAccountFunds and does not persist it.
            TransactionType::Withdrawal => {
                let amount = txn.amount.unwrap();
                match self.store.withdraw(txn.client, amount) {
                    Err(HelaError::InsufficientAccountFunds(_)) => {},
                    Err(e) => return Err(e),
                    Ok(_) => {
                        match self.store.store_transaction(txn) {
                            Ok(_) => {},
                            Err(e) => return Err(e),
                        }
                    },
                }
            },
            // A chargeback of an unknown or undisputed transaction is an error on the
            // partner's side, and is ignored.
            TransactionType::Chargeback => {
                if let Ok(prev_txn) = self.store.get_transaction(txn.id) {
                    if prev_txn.disputed {
                        match self.store.chargeback(txn.client, prev_txn.amount.unwrap()) {
                            Ok(_) => {},
                            Err(e) => return Err(e),
                        }
                    }
                }
            },
            TransactionType::Dispute => {
                if let Ok(prev_txn) = self.store.get_transaction(txn.id) {
                    match self.store.dispute(txn.client, prev_txn.amount.unwrap()) {
                        Ok(_) => {},
                        Err(e) => return Err(e),
                    }
                    match self.store.mark_transaction_as_disputed(prev_txn.id) {
                        Ok(_) => {},
                        Err(e) => return Err(e),
                    }
                }
            },
            TransactionType::Resolve => {
                if let Ok(prev_txn) = self.store.get_transaction(txn.id) {
                    if prev_txn.disputed {
                        match self.store.resolve(txn.client, prev_txn.amount.unwrap()) {
                            Ok(_) => {},
                            Err(e) => return Err(e),
                        }
                        match self.store.mark_transaction_as_undisputed(prev_txn.id) {
                            Ok(_) => {},
                            Err(e) => return Err(e),
                        }
                    }
                }
            },
        }
        Ok(())
    }

    /// Execute a stream of transactions, in order, stopping at the first error.
    pub fn execute_transactions(&mut self, txns: Vec<Transaction>) -> (r: Fallible<()>)
        requires
            old(self).ledger().wf(),
            forall|i: int| 0 <= i < txns@.len() ==> well_formed_transaction(#[trigger] txns@[i]),
        ensures
            final(self).ledger().wf(),
            match apply_all(old(self).ledger(), txns@) {
                Some(l) => r is Ok && final(self).ledger() == l,
                None => exists|k: int|
                    0 <= k < txns@.len() && apply_all(old(self).ledger(), txns@.take(k)) == Some(
                        final(self).ledger(),
                    ) && apply(final(self).ledger(), #[trigger] txns@[k]) is None && r == Err::<
                        (),
                        _,
                    >(HelaError::AmountOverflow(txns@[k].client)),
            },
    {
        let ghost start = self.ledger();
        let mut i: usize = 0;
        while i < txns.len()
            invariant
                i <= txns@.len(),
                start == old(self).ledger(),
                self.ledger().wf(),
                forall|j: int| 0 <= j < txns@.len() ==> well_formed_transaction(#[trigger] txns@[j]),
                apply_all(start, txns@.take(i as int)) == Some(self.ledger()),
            decreases txns@.len() - i,
        {
            let txn = txns[i];
            assert(txns@.take(i as int + 1).drop_last() == txns@.take(i as int));
            assert(txns@.take(i as int + 1).last() == txn);
            match self.execute_transaction(txn) {
                Ok(_) => {},
                Err(e) => {
                    proof {
                        lemma_apply_all_stops(start, txns@, i as int + 1);
                        assert(apply(self.ledger(), txns@[i as int]) is None);
                        assert(apply_all(start, txns@.take(i as int)) == Some(self.ledger()));
                    }
                    return Err(e);
                },
            }
            i = i + 1;
        }
        assert(txns@.take(i as int) == txns@);
        Ok(())
    }

    /// The accounts of the storage backend, in increasing order of client
    pub fn accounts(&self) -> (r: Fallible<Vec<Account>>)
        requires
            self.ledger().wf(),
        ensures
            match r {
                Ok(v) => accounts_listed(self.ledger().accounts, v@),
                Err(_) => false,
            },
    {
        self.store.get_accounts()
    }
}

} // verus!
