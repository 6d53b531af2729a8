//! Properties of the transaction rules that hold for every ledger.
use vstd::prelude::*;

use crate::engine::{apply, apply_all};
use crate::model::{amount_of, well_formed_transaction, Client, Ledger, Transaction, TransactionType};

verus! {

/// Applying one well-formed transaction to a well-formed ledger yields a well-formed
/// ledger: in particular every account stays balanced.
pub proof fn lemma_apply_keeps_wf(l: Ledger, t: Transaction)
    requires
        l.wf(),
        well_formed_transaction(t),
    ensures
        apply(l, t) matches Some(m) ==> m.wf(),
{
    let c = t.client;
    if let Some(m) = apply(l, t) {
        assert forall|k: Client| #[trigger] m.accounts.contains_key(k) implies {
            &&& m.accounts[k].client == k
            &&& m.accounts[k].balanced()
            &&& m.accounts[k].representable()
        } by {
            if k != c {
                assert(l.accounts.contains_key(k));
            }
        }
    }
}

/// For every sequence of transactions, every resulting account satisfies
/// `total == available + held`. Nothing keeps `available` (or `total`) from going negative.
pub proof fn lemma_balances_hold(l: Ledger, ts: Seq<Transaction>)
    requires
        l.wf(),
        forall|i: int| 0 <= i < ts.len() ==> well_formed_transaction(#[trigger] ts[i]),
    ensures
        apply_all(l, ts) matches Some(m) ==> m.wf() && forall|c: Client| #[trigger]
            m.accounts.contains_key(c) ==> m.accounts[c].total == m.accounts[c].available
                + m.accounts[c].held,
    decreases ts.len(),
{
    if ts.len() > 0 {
        let init = ts.drop_last();
        assert forall|i: int| 0 <= i < init.len() implies well_formed_transaction(
            #[trigger] init[i],
        ) by {
            assert(init[i] == ts[i]);
        }
        lemma_balances_hold(l, init);
        if let Some(m0) = apply_all(l, init) {
            assert(ts.last() == ts[ts.len() - 1]);
            lemma_apply_keeps_wf(m0, ts.last());
        }
    }
    if let Some(m) = apply_all(l, ts) {
        assert forall|c: Client| #[trigger] m.accounts.contains_key(c) implies m.accounts[c].total
            == m.accounts[c].available + m.accounts[c].held by {
            assert(m.accounts[c].balanced());
        }
    }
}

/// A withdrawal of more than the available funds is a no-op: no balance changes and
/// nothing is persisted; only an account that did not exist yet is created, empty.
pub proof fn lemma_withdrawal_beyond_funds(l: Ledger, t: Transaction)
    requires
        t.tx_type == TransactionType::Withdrawal,
        l.account(t.client).available < amount_of(t),
    ensures
        apply(l, t) == Some(l.touched(t.client)),
        l.accounts.contains_key(t.client) ==> apply(l, t) == Some(l),
{
    if l.accounts.contains_key(t.client) {
        assert(l.touched(t.client).accounts =~= l.accounts);
    }
}

/// A dispute referencing an unknown transaction id is a no-op.
pub proof fn lemma_dispute_unknown_ignored(l: Ledger, t: Transaction)
    requires
        t.tx_type == TransactionType::Dispute,
        !l.transactions.contains_key(t.id),
    ensures
        apply(l, t) == Some(l),
{
}

/// Once a resolve referencing a transaction has been applied, a second resolve or a
/// chargeback referencing the same transaction has no further effect.
pub proof fn lemma_resolve_settles(l: Ledger, first: Transaction, second: Transaction)
    requires
        first.tx_type == TransactionType::Resolve,
        second.tx_type == TransactionType::Resolve || second.tx_type
            == TransactionType::Chargeback,
        second.id == first.id,
        apply(l, first) is Some,
    ensures
        apply(apply(l, first).unwrap(), second) == apply(l, first),
{
}

/// A chargeback of a disputed transaction locks the account and decreases its held and
/// total funds by exactly the disputed amount; available funds, the other accounts and
/// the transactions are untouched.
pub proof fn lemma_chargeback_effect(l: Ledger, t: Transaction)
    requires
        t.tx_type == TransactionType::Chargeback,
        l.transactions.contains_key(t.id),
        l.transactions[t.id].disputed,
        apply(l, t) is Some,
    ensures
        ({
            let m = apply(l, t).unwrap();
            let before = l.account(t.client);
            let after = m.accounts[t.client];
            let amount = amount_of(l.transactions[t.id]);
            &&& m.accounts.contains_key(t.client)
            &&& after.locked
            &&& after.held == before.held - amount
            &&& after.total == before.total - amount
            &&& after.available == before.available
            &&& m.transactions == l.transactions
            &&& forall|c: Client| c != t.client ==> #[trigger] m.accounts.contains_key(c)
                == l.accounts.contains_key(c) && m.accounts[c] == l.accounts[c]
        }),
{
}

} // verus!
