use crate::model::TxType;
use vstd::prelude::*;

verus! {

/// Why a row could not be turned into a transaction.
#[derive(Clone, Debug, PartialEq)]
pub enum ParseError {
    /// An amount that is not a decimal number.
    Amount(String),
    /// A transaction type that is not one of the five known ones.
    TransactionType(String),
    /// A deposit or withdrawal without an amount.
    MissingAmount(TxType),
}

} // verus!
