use vstd::prelude::*;

use crate::model::{Client, TransactionId};

verus! {

/// A result wrapper around HelaError
pub type Fallible<T> = Result<T, HelaError>;

/// Enumeration of all possible Hela errors
#[derive(Clone, Copy, Debug, PartialEq, Eq, Structural)]
pub enum HelaError {
    /// DataStore Locking
    DataStoreLockError,
    /// Missing Transaction
    TransactionNotFound(TransactionId),
    /// Missing Account
    AccountNotFound(Client),
    /// Insufficient Account Funds
    InsufficientAccountFunds(Client),
    /// A balance of the client's account would leave the range of `Amount`
    AmountOverflow(Client),
}

} // verus!
