//! Hela: replays an ordered stream of payment transactions against client
//! accounts and reports the resulting balances.
pub mod model;
pub mod engine;
pub mod errors;
pub mod laws;
pub mod storage;

pub use crate::model::{
    Account, AccountStore, Amount, Client, LedgerView, Storage, Transaction, TransactionId,
    TransactionStore, TransactionType, amount_to_cents, AMOUNT_SCALE,
};
pub use crate::errors::{Fallible, HelaError};
pub use crate::storage::InMemoryStore;
pub use crate::engine::PaymentEngine;
