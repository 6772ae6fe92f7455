use crate::error::ParseError;
use crate::model::{ClientId, Entry, RawEntry, TxId, TxType};
use vstd::prelude::*;

verus! {

/// What validating a raw row gives: a deposit or withdrawal must carry an
/// amount; any amount on a dispute, resolve or chargeback refers to another
/// transaction's value and is dropped.
pub open spec fn validated(raw: RawEntry) -> Result<Entry, ParseError> {
    let entry = Entry {
        tx_type: raw.tx_type,
        client: ClientId(raw.client),
        tx: TxId(raw.tx),
        amount: None,
    };
    match raw.tx_type {
        TxType::Deposit | TxType::Withdrawal => match raw.amount {
            Some(a) => Ok(Entry { amount: Some(a), ..entry }),
            None => Err(ParseError::MissingAmount(raw.tx_type)),
        },
        TxType::Dispute | TxType::Resolve | TxType::Chargeback => Ok(entry),
    }
}

/// Validation rejects exactly the deposit and withdrawal rows without an
/// amount, each with `MissingAmount` of its own kind. Every row it accepts
/// keeps its kind, client and transaction id; a deposit or withdrawal keeps
/// its amount, and the other kinds carry none.
pub proof fn lemma_validation(raw: RawEntry)
    ensures
        ({
            let needs_amount = raw.tx_type == TxType::Deposit || raw.tx_type
                == TxType::Withdrawal;
            &&& validated(raw) is Err <==> (needs_amount && raw.amount is None)
            &&& validated(raw) is Err ==> validated(raw) == Err::<Entry, ParseError>(
                ParseError::MissingAmount(raw.tx_type),
            )
            &&& validated(raw) matches Ok(e) ==> {
                &&& e.tx_type == raw.tx_type
                &&& e.client@ == raw.client
                &&& e.tx@ == raw.tx
                &&& needs_amount ==> e.amount is Some && e.amount == raw.amount
                &&& !needs_amount ==> e.amount is None
            }
        }),
{
}

impl TryFrom<RawEntry> for Entry {
    type Error = ParseError;

    fn try_from(raw: RawEntry) -> (r: Result<Entry, ParseError>)
        ensures
            r == validated(raw),
    {
        let amount = match raw.tx_type {
            TxType::Deposit | TxType::Withdrawal => match raw.amount {
                Some(decimal) => Some(decimal),
                None => {
                    return Err(ParseError::MissingAmount(raw.tx_type));
                },
            },
            TxType::Dispute | TxType::Resolve | TxType::Chargeback => None,
        };
        Ok(Entry {
            tx_type: raw.tx_type,
            client: ClientId::new(raw.client),
            tx: TxId::new(raw.tx),
            amount,
        })
    }
}

impl vstd::std_specs::convert::TryFromSpecImpl<RawEntry> for Entry {
    open spec fn obeys_try_from_spec() -> bool {
        true
    }

    open spec fn try_from_spec(raw: RawEntry) -> Result<Entry, ParseError> {
        validated(raw)
    }
}

} // verus!
