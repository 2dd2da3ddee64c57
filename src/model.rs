//! The stored entities and the errors of the storage contract.

use vstd::prelude::*;
use crate::time::{Date, Instant};

verus! {

/// Why a storage operation failed, with a message for people.
#[derive(Clone, Debug, PartialEq)]
pub enum DataError {
    /// A lookup by id or key found nothing, or an entity has no id yet.
    NotFound(String),
    /// The backend refused a write.
    InsertFailed(String),
    /// A row is no valid transaction.
    InvalidTransaction(String),
    /// A currency code could not be read.
    InvalidCurrency(String),
}

/// A binary64 floating-point quantity (a price, an amount, a position), held
/// by its IEEE 754 bit pattern: it is stored and handed on exactly, and no
/// arithmetic is done on it here.
#[derive(Clone, Copy, Debug, PartialEq, Eq, Hash)]
pub struct Number {
    pub bits: u64,
}

/// A currency, by its three-letter ISO 4217 code.
#[derive(Clone, Debug, PartialEq, Eq, Hash)]
pub struct Currency {
    pub code: String,
}

/// A code of three upper-case ASCII letters.
pub open spec fn is_currency_code(s: Seq<char>) -> bool {
    s.len() == 3 && forall|i: int| 0 <= i < 3 ==> 'A' <= #[trigger] s[i] <= 'Z'
}

impl Currency {
    pub fn copy(&self) -> (r: Currency)
        ensures
            r == *self,
    {
        Currency { code: self.code.clone() }
    }

    pub open spec fn valid(&self) -> bool {
        is_currency_code(self.code@)
    }

    /// Reads a currency code.
    pub fn from_code(code: &String) -> (r: Result<Currency, DataError>)
        ensures
            r is Ok <==> is_currency_code(code@),
            r is Ok ==> r->Ok_0.code == *code,
            r is Err ==> r->Err_0 is InvalidCurrency,
    {
        let s = code.as_str();
        if s.unicode_len() != 3 {
            return Err(DataError::InvalidCurrency(code.clone()));
        }
        let mut i: usize = 0;
        while i < 3
            invariant
                i <= 3,
                s@ == code@,
                s@.len() == 3,
                forall|k: int| 0 <= k < i ==> 'A' <= #[trigger] s@[k] <= 'Z',
            decreases 3 - i,
        {
            let c = s.get_char(i);
            if !('A' <= c && c <= 'Z') {
                return Err(DataError::InvalidCurrency(code.clone()));
            }
            i = i + 1;
        }
        Ok(Currency { code: code.clone() })
    }
}

/// A financial instrument.
#[derive(Clone, Debug, PartialEq)]
pub struct Asset {
    pub id: Option<usize>,
    pub name: String,
    pub wkn: Option<String>,
    pub isin: Option<String>,
    pub note: Option<String>,
}

/// A price feed of one market-data source for one asset.
#[derive(Clone, Debug, PartialEq)]
pub struct Ticker {
    pub id: Option<usize>,
    pub name: String,
    pub asset: usize,
    pub source: String,
    /// Higher is preferred.
    pub priority: i32,
    pub currency: Currency,
    pub factor: Number,
}

/// A price of a ticker at an instant.
#[derive(Clone, Copy, Debug, PartialEq)]
pub struct Quote {
    pub id: Option<usize>,
    pub ticker: usize,
    pub price: Number,
    pub time: Instant,
    pub volume: Option<Number>,
}

#[derive(Clone, Debug, PartialEq)]
pub struct CashAmount {
    pub amount: Number,
    pub currency: Currency,
}

/// A dated amount of money.
#[derive(Clone, Debug, PartialEq)]
pub struct CashFlow {
    pub amount: CashAmount,
    pub date: Date,
}

/// The kind of a transaction, with the fields that belong to that kind.
#[derive(Clone, Copy, Debug, PartialEq)]
pub enum TransactionType {
    Cash,
    Asset { asset_id: usize, position: Number },
    Dividend { asset_id: usize },
    Interest { asset_id: usize },
    Tax { transaction_ref: Option<usize> },
    Fee { transaction_ref: Option<usize> },
}

/// A ledger entry.
#[derive(Clone, Debug, PartialEq)]
pub struct Transaction {
    pub id: Option<usize>,
    pub transaction_type: TransactionType,
    pub cash_flow: CashFlow,
    pub note: Option<String>,
}

impl Asset {
    pub fn copy(&self) -> (r: Asset)
        ensures
            r == *self,
    {
        Asset {
            id: self.id,
            name: self.name.clone(),
            wkn: clone_text(&self.wkn),
            isin: clone_text(&self.isin),
            note: clone_text(&self.note),
        }
    }
}

impl Ticker {
    pub fn copy(&self) -> (r: Ticker)
        ensures
            r == *self,
    {
        Ticker {
            id: self.id,
            name: self.name.clone(),
            asset: self.asset,
            source: self.source.clone(),
            priority: self.priority,
            currency: self.currency.copy(),
            factor: self.factor,
        }
    }
}

impl Transaction {
    pub fn copy(&self) -> (r: Transaction)
        ensures
            r == *self,
    {
        Transaction {
            id: self.id,
            transaction_type: self.transaction_type,
            cash_flow: CashFlow {
                amount: CashAmount {
                    amount: self.cash_flow.amount.amount,
                    currency: self.cash_flow.amount.currency.copy(),
                },
                date: self.cash_flow.date,
            },
            note: clone_text(&self.note),
        }
    }
}

/// A copy of an optional text, equal to it.
pub fn clone_text(s: &Option<String>) -> (r: Option<String>)
    ensures
        r == *s,
{
    match s {
        Some(t) => Some(t.clone()),
        None => None,
    }
}

} // verus!
