//! The flat row that stores a transaction, and the mapping between the two.

use vstd::prelude::*;
use crate::model::{
    clone_text, is_currency_code, CashAmount, CashFlow, Currency, DataError, Number, Transaction,
    TransactionType,
};
use crate::time::Date;

verus! {

/// A transaction as one row of the `transactions` table: `trans_type` is one
/// of `c`, `a`, `d`, `i`, `t`, `f` and says which of the optional columns are
/// meaningful.
#[derive(Clone, Debug, PartialEq)]
pub struct RawTransaction {
    pub id: Option<i32>,
    pub trans_type: String,
    pub asset: Option<i32>,
    pub cash_amount: Number,
    pub cash_currency: String,
    pub cash_date: Date,
    pub related_trans: Option<i32>,
    pub position: Option<Number>,
    pub note: Option<String>,
}

/// The discriminant that stands for a kind of transaction.
pub open spec fn tag(t: TransactionType) -> Seq<char> {
    match t {
        TransactionType::Cash => seq!['c'],
        TransactionType::Asset { .. } => seq!['a'],
        TransactionType::Dividend { .. } => seq!['d'],
        TransactionType::Interest { .. } => seq!['i'],
        TransactionType::Tax { .. } => seq!['t'],
        TransactionType::Fee { .. } => seq!['f'],
    }
}

/// An id fits the 32-bit id column.
pub open spec fn fits_column(id: Option<usize>) -> bool {
    match id {
        Some(x) => x <= i32::MAX,
        None => true,
    }
}

pub open spec fn to_column(id: Option<usize>) -> Option<i32> {
    match id {
        Some(x) => Some(x as i32),
        None => None,
    }
}

/// An id read from a column, converted as `as usize` converts.
pub open spec fn from_column(v: Option<i32>) -> Option<usize> {
    match v {
        Some(x) => Some(x as usize),
        None => None,
    }
}

/// Every id in a transaction fits the 32-bit columns of its row.
pub open spec fn fits_row(t: Transaction) -> bool {
    &&& fits_column(t.id)
    &&& match t.transaction_type {
        TransactionType::Asset { asset_id, .. } => asset_id <= i32::MAX,
        TransactionType::Dividend { asset_id } => asset_id <= i32::MAX,
        TransactionType::Interest { asset_id } => asset_id <= i32::MAX,
        TransactionType::Tax { transaction_ref } => fits_column(transaction_ref),
        TransactionType::Fee { transaction_ref } => fits_column(transaction_ref),
        TransactionType::Cash => true,
    }
}

/// The asset column of a transaction's row.
pub open spec fn asset_column(t: TransactionType) -> Option<i32> {
    match t {
        TransactionType::Asset { asset_id, .. } => Some(asset_id as i32),
        TransactionType::Dividend { asset_id } => Some(asset_id as i32),
        TransactionType::Interest { asset_id } => Some(asset_id as i32),
        _ => None,
    }
}

/// The column of the related transaction in a transaction's row.
pub open spec fn related_column(t: TransactionType) -> Option<i32> {
    match t {
        TransactionType::Tax { transaction_ref } => to_column(transaction_ref),
        TransactionType::Fee { transaction_ref } => to_column(transaction_ref),
        _ => None,
    }
}

/// The position column of a transaction's row.
pub open spec fn position_column(t: TransactionType) -> Option<Number> {
    match t {
        TransactionType::Asset { position, .. } => Some(position),
        _ => None,
    }
}

/// `raw` is the row of `t`: the columns that `t`'s kind does not use are empty.
pub open spec fn encodes(t: Transaction, raw: RawTransaction) -> bool {
    &&& raw.id == to_column(t.id)
    &&& raw.trans_type@ == tag(t.transaction_type)
    &&& raw.asset == asset_column(t.transaction_type)
    &&& raw.cash_amount == t.cash_flow.amount.amount
    &&& raw.cash_currency == t.cash_flow.amount.currency.code
    &&& raw.cash_date == t.cash_flow.date
    &&& raw.related_trans == related_column(t.transaction_type)
    &&& raw.position == position_column(t.transaction_type)
    &&& raw.note == t.note
}

/// The kind of transaction that a row holds: `None` for an unknown
/// discriminant, or where a column that the discriminant needs is empty.
pub open spec fn decode_type(raw: RawTransaction) -> Option<TransactionType> {
    let d = raw.trans_type@;
    if d == seq!['c'] {
        Some(TransactionType::Cash)
    } else if d == seq!['a'] {
        match (raw.asset, raw.position) {
            (Some(a), Some(p)) => Some(TransactionType::Asset { asset_id: a as usize, position: p }),
            _ => None,
        }
    } else if d == seq!['d'] {
        match raw.asset {
            Some(a) => Some(TransactionType::Dividend { asset_id: a as usize }),
            None => None,
        }
    } else if d == seq!['i'] {
        match raw.asset {
            Some(a) => Some(TransactionType::Interest { asset_id: a as usize }),
            None => None,
        }
    } else if d == seq!['t'] {
        Some(TransactionType::Tax { transaction_ref: from_column(raw.related_trans) })
    } else if d == seq!['f'] {
        Some(TransactionType::Fee { transaction_ref: from_column(raw.related_trans) })
    } else {
        None
    }
}

/// The row is malformed: its discriminant is unknown, or a column that the
/// discriminant needs is empty.
pub open spec fn is_malformed(raw: RawTransaction) -> bool {
    decode_type(raw) is None
}

/// The transaction that a row holds, if it holds one.
pub open spec fn decode(raw: RawTransaction) -> Option<Transaction> {
    if is_malformed(raw) || !is_currency_code(raw.cash_currency@) {
        None
    } else {
        Some(Transaction {
            id: from_column(raw.id),
            transaction_type: decode_type(raw)->0,
            cash_flow: CashFlow {
                amount: CashAmount {
                    amount: raw.cash_amount,
                    currency: Currency { code: raw.cash_currency },
                },
                date: raw.cash_date,
            },
            note: raw.note,
        })
    }
}

/// One of the six discriminants.
pub open spec fn is_known_tag(d: Seq<char>) -> bool {
    d == seq!['c'] || d == seq!['a'] || d == seq!['d'] || d == seq!['i'] || d == seq!['t']
        || d == seq!['f']
}

/// A column that the row's discriminant needs is empty: the asset of an
/// asset, dividend or interest row, or the position of an asset row.
pub open spec fn lacks_required_column(raw: RawTransaction) -> bool {
    let d = raw.trans_type@;
    ||| d == seq!['a'] && (raw.asset is None || raw.position is None)
    ||| (d == seq!['d'] || d == seq!['i']) && raw.asset is None
}

/// Decoding the row of a transaction gives that transaction back, for every
/// transaction whose ids fit the row's columns and whose currency is valid.
pub proof fn lemma_round_trip(t: Transaction, raw: RawTransaction)
    requires
        fits_row(t),
        t.cash_flow.amount.currency.valid(),
        encodes(t, raw),
    ensures
        decode(raw) == Some(t),
{
    tags_differ();
    match t.transaction_type {
        TransactionType::Tax { transaction_ref } => {
            assert(from_column(to_column(transaction_ref)) == transaction_ref);
        },
        TransactionType::Fee { transaction_ref } => {
            assert(from_column(to_column(transaction_ref)) == transaction_ref);
        },
        _ => {},
    }
    assert(from_column(to_column(t.id)) == t.id);
}

/// A row with an unknown discriminant, or without a column that its
/// discriminant needs, is malformed and holds no transaction (reading it
/// fails with `InvalidTransaction`).
pub proof fn lemma_malformed_rows(raw: RawTransaction)
    requires
        !is_known_tag(raw.trans_type@) || lacks_required_column(raw),
    ensures
        is_malformed(raw),
        decode(raw) is None,
{
    tags_differ();
}

/// The six discriminants are distinct texts.
proof fn tags_differ()
    ensures
        seq!['c'][0] == 'c' && seq!['a'][0] == 'a' && seq!['d'][0] == 'd',
        seq!['i'][0] == 'i' && seq!['t'][0] == 't' && seq!['f'][0] == 'f',
{
}

fn id_from_column(v: Option<i32>) -> (r: Option<usize>)
    ensures
        r == from_column(v),
{
    match v {
        Some(x) => Some(x as usize),
        None => None,
    }
}

fn id_to_column(id: Option<usize>) -> (r: Option<i32>)
    requires
        fits_column(id),
    ensures
        r == to_column(id),
{
    match id {
        Some(x) => Some(x as i32),
        None => None,
    }
}

fn required_asset(v: Option<i32>) -> (r: Result<usize, DataError>)
    ensures
        r is Ok <==> v is Some,
        r is Ok ==> r->Ok_0 == v->0 as usize,
        r is Err ==> r->Err_0 is InvalidTransaction,
{
    match v {
        Some(x) => Ok(x as usize),
        None => Err(DataError::InvalidTransaction(String::from_str("missing asset id"))),
    }
}

fn is_tag(s: &String, c: char) -> (r: bool)
    ensures
        r == (s@ == seq![c]),
{
    let t = s.as_str();
    if t.unicode_len() != 1 {
        return false;
    }
    let r = t.get_char(0) == c;
    assert(r ==> t@ =~= seq![c]);
    r
}

impl RawTransaction {
    /// Reads the transaction that this row holds.
    pub fn to_transaction(&self) -> (r: Result<Transaction, DataError>)
        ensures
            r is Ok <==> decode(*self) is Some,
            r is Ok ==> r->Ok_0 == decode(*self)->0,
            is_malformed(*self) ==> r is Err && r->Err_0 is InvalidTransaction,
            !is_malformed(*self) && !is_currency_code(self.cash_currency@) ==> r is Err
                && r->Err_0 is InvalidCurrency,
    {
        let transaction_type = if is_tag(&self.trans_type, 'c') {
            TransactionType::Cash
        } else if is_tag(&self.trans_type, 'a') {
            let asset_id = match required_asset(self.asset) {
                Ok(a) => a,
                Err(e) => return Err(e),
            };
            let position = match self.position {
                Some(p) => p,
                None => return Err(DataError::InvalidTransaction(String::from_str("missing position value"))),
            };
            TransactionType::Asset { asset_id, position }
        } else if is_tag(&self.trans_type, 'd') {
            match required_asset(self.asset) {
                Ok(a) => TransactionType::Dividend { asset_id: a },
                Err(e) => return Err(e),
            }
        } else if is_tag(&self.trans_type, 'i') {
            match required_asset(self.asset) {
                Ok(a) => TransactionType::Interest { asset_id: a },
                Err(e) => return Err(e),
            }
        } else if is_tag(&self.trans_type, 't') {
            TransactionType::Tax { transaction_ref: id_from_column(self.related_trans) }
        } else if is_tag(&self.trans_type, 'f') {
            TransactionType::Fee { transaction_ref: id_from_column(self.related_trans) }
        } else {
            return Err(DataError::InvalidTransaction(self.trans_type.clone()));
        };
        let id = id_from_column(self.id);
        let currency = match Currency::from_code(&self.cash_currency) {
            Ok(c) => c,
            Err(e) => return Err(e),
        };
        Ok(Transaction {
            id,
            transaction_type,
            cash_flow: CashFlow {
                amount: CashAmount { amount: self.cash_amount, currency },
                date: self.cash_date,
            },
            note: clone_text(&self.note),
        })
    }

    /// The row that stores a transaction.
    pub fn from_transaction(transaction: &Transaction) -> (r: RawTransaction)
        requires
            fits_row(*transaction),
        ensures
            encodes(*transaction, r),
    {
        let mut raw = RawTransaction {
            id: id_to_column(transaction.id),
            trans_type: String::new(),
            asset: None,
            cash_amount: transaction.cash_flow.amount.amount,
            cash_currency: transaction.cash_flow.amount.currency.code.clone(),
            cash_date: transaction.cash_flow.date,
            related_trans: None,
            position: None,
            note: clone_text(&transaction.note),
        };
        match transaction.transaction_type {
            TransactionType::Cash => {
                raw.trans_type = String::from_str("c");
                proof {
                    reveal_strlit("c");
                }
                assert(raw.trans_type@ =~= seq!['c']);
            },
            TransactionType::Asset { asset_id, position } => {
                raw.trans_type = String::from_str("a");
                proof {
                    reveal_strlit("a");
                }
                assert(raw.trans_type@ =~= seq!['a']);
                raw.asset = Some(asset_id as i32);
                raw.position = Some(position);
            },
            TransactionType::Dividend { asset_id } => {
                raw.trans_type = String::from_str("d");
                proof {
                    reveal_strlit("d");
                }
                assert(raw.trans_type@ =~= seq!['d']);
                raw.asset = Some(asset_id as i32);
            },
            TransactionType::Interest { asset_id } => {
                raw.trans_type = String::from_str("i");
                proof {
                    reveal_strlit("i");
                }
                assert(raw.trans_type@ =~= seq!['i']);
                raw.asset = Some(asset_id as i32);
            },
            TransactionType::Tax { transaction_ref } => {
                raw.trans_type = String::from_str("t");
                proof {
                    reveal_strlit("t");
                }
                assert(raw.trans_type@ =~= seq!['t']);
                raw.related_trans = id_to_column(transaction_ref);
            },
            TransactionType::Fee { transaction_ref } => {
                raw.trans_type = String::from_str("f");
                proof {
                    reveal_strlit("f");
                }
                assert(raw.trans_type@ =~= seq!['f']);
                raw.related_trans = id_to_column(transaction_ref);
            },
        }
        raw
    }
}

} // verus!
