use finql_store::codec::RawTransaction;
use finql_store::model::{
    CashAmount, CashFlow, Currency, DataError, Number, Transaction, TransactionType,
};
use finql_store::time::Date;

fn eur() -> Currency {
    Currency::from_code(&"EUR".to_string()).unwrap()
}

fn num(x: f64) -> Number {
    Number { bits: x.to_bits() }
}

fn transaction(id: Option<usize>, transaction_type: TransactionType) -> Transaction {
    Transaction {
        id,
        transaction_type,
        cash_flow: CashFlow {
            amount: CashAmount { amount: num(-1234.5), currency: eur() },
            date: Date { year: 2023, month: 3, day: 14 },
        },
        note: Some("first buy".to_string()),
    }
}

fn raw(trans_type: &str) -> RawTransaction {
    RawTransaction {
        id: Some(7),
        trans_type: trans_type.to_string(),
        asset: None,
        cash_amount: num(10.0),
        cash_currency: "USD".to_string(),
        cash_date: Date { year: 2021, month: 1, day: 2 },
        related_trans: None,
        position: None,
        note: None,
    }
}

#[test]
fn round_trip_every_variant() {
    let kinds = vec![
        TransactionType::Cash,
        TransactionType::Asset { asset_id: 3, position: num(12.5) },
        TransactionType::Dividend { asset_id: 4 },
        TransactionType::Interest { asset_id: 5 },
        TransactionType::Tax { transaction_ref: Some(9) },
        TransactionType::Tax { transaction_ref: None },
        TransactionType::Fee { transaction_ref: Some(11) },
        TransactionType::Fee { transaction_ref: None },
    ];
    for kind in kinds {
        for id in [None, Some(42)] {
            let t = transaction(id, kind);
            let row = RawTransaction::from_transaction(&t);
            assert_eq!(row.to_transaction(), Ok(t));
        }
    }
}

#[test]
fn encode_fills_only_the_columns_of_the_kind() {
    let t = transaction(Some(1), TransactionType::Asset { asset_id: 3, position: num(12.5) });
    let row = RawTransaction::from_transaction(&t);
    assert_eq!(row.id, Some(1));
    assert_eq!(row.trans_type, "a");
    assert_eq!(row.asset, Some(3));
    assert_eq!(row.position, Some(num(12.5)));
    assert_eq!(row.related_trans, None);
    assert_eq!(row.cash_currency, "EUR");
    assert_eq!(row.note, Some("first buy".to_string()));

    let row = RawTransaction::from_transaction(&transaction(None, TransactionType::Cash));
    assert_eq!(row.trans_type, "c");
    assert_eq!((row.asset, row.related_trans, row.position), (None, None, None));

    let row = RawTransaction::from_transaction(&transaction(None, TransactionType::Fee { transaction_ref: Some(8) }));
    assert_eq!(row.trans_type, "f");
    assert_eq!((row.asset, row.related_trans, row.position), (None, Some(8), None));

    let row = RawTransaction::from_transaction(&transaction(None, TransactionType::Dividend { asset_id: 2 }));
    assert_eq!(row.trans_type, "d");
    assert_eq!((row.asset, row.related_trans, row.position), (Some(2), None, None));
}

#[test]
fn unknown_discriminant_is_invalid() {
    for tag in ["x", "", "cash", "A"] {
        assert!(matches!(raw(tag).to_transaction(), Err(DataError::InvalidTransaction(_))));
    }
}

#[test]
fn unknown_discriminant_wins_over_bad_currency() {
    let mut row = raw("z");
    row.cash_currency = "euro".to_string();
    assert!(matches!(row.to_transaction(), Err(DataError::InvalidTransaction(_))));
}

#[test]
fn missing_required_columns_are_invalid() {
    let mut row = raw("a");
    row.position = Some(num(1.0));
    assert!(matches!(row.to_transaction(), Err(DataError::InvalidTransaction(_))));
    let mut row = raw("a");
    row.asset = Some(2);
    assert!(matches!(row.to_transaction(), Err(DataError::InvalidTransaction(_))));
    assert!(matches!(raw("d").to_transaction(), Err(DataError::InvalidTransaction(_))));
    assert!(matches!(raw("i").to_transaction(), Err(DataError::InvalidTransaction(_))));
}

#[test]
fn negative_ids_are_cast() {
    let mut row = raw("c");
    row.id = Some(-1);
    assert_eq!(row.to_transaction().unwrap().id, Some(-1i32 as usize));
    let mut row = raw("t");
    row.related_trans = Some(-5);
    assert_eq!(
        row.to_transaction().unwrap().transaction_type,
        TransactionType::Tax { transaction_ref: Some(-5i32 as usize) }
    );
    let mut row = raw("d");
    row.asset = Some(-2);
    assert_eq!(row.to_transaction().unwrap().transaction_type, TransactionType::Dividend { asset_id: -2i32 as usize });
}

#[test]
fn bad_currency_is_reported() {
    let mut row = raw("c");
    row.cash_currency = "usd".to_string();
    assert!(matches!(row.to_transaction(), Err(DataError::InvalidCurrency(_))));
}

#[test]
fn decode_cash_and_tax_rows() {
    let t = raw("c").to_transaction().unwrap();
    assert_eq!(t.id, Some(7));
    assert_eq!(t.transaction_type, TransactionType::Cash);
    assert_eq!(t.cash_flow.amount.currency.code, "USD");
    assert_eq!(t.cash_flow.amount.amount, num(10.0));

    let mut row = raw("t");
    row.related_trans = Some(3);
    assert_eq!(row.to_transaction().unwrap().transaction_type, TransactionType::Tax { transaction_ref: Some(3) });
    let mut row = raw("i");
    row.asset = Some(6);
    assert_eq!(row.to_transaction().unwrap().transaction_type, TransactionType::Interest { asset_id: 6 });
}

#[test]
fn currency_codes() {
    assert_eq!(eur().code, "EUR");
    for bad in ["", "EU", "EURO", "eur", "E1R"] {
        assert!(matches!(Currency::from_code(&bad.to_string()), Err(DataError::InvalidCurrency(_))));
    }
}
