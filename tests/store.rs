use finql_store::handler::{digits_or_default, AssetHandler, QuoteHandler, TransactionHandler};
use finql_store::memory::MemoryDB;
use finql_store::model::{
    Asset, CashAmount, CashFlow, Currency, DataError, Number, Quote, Ticker, Transaction,
    TransactionType,
};
use finql_store::resolver::{pick_latest, resolve_quote, QuoteIndex};
use finql_store::time::{to_time, Date, Instant};

fn currency(code: &str) -> Currency {
    Currency::from_code(&code.to_string()).unwrap()
}

fn num(x: f64) -> Number {
    Number { bits: x.to_bits() }
}

fn at(text: &str) -> Instant {
    to_time(text).unwrap()
}

fn asset(name: &str, wkn: Option<&str>, isin: Option<&str>) -> Asset {
    Asset {
        id: None,
        name: name.to_string(),
        wkn: wkn.map(|s| s.to_string()),
        isin: isin.map(|s| s.to_string()),
        note: None,
    }
}

fn ticker(name: &str, asset: usize, priority: i32, code: &str) -> Ticker {
    Ticker {
        id: None,
        name: name.to_string(),
        asset,
        source: "manual".to_string(),
        priority,
        currency: currency(code),
        factor: num(1.0),
    }
}

fn quote(ticker: usize, price: f64, time: &str) -> Quote {
    Quote { id: None, ticker, price: num(price), time: at(time), volume: None }
}

/// Asset "ACME" with ticker A (priority 1, EUR) and ticker B (priority 5, USD).
fn acme() -> (MemoryDB, usize, usize, usize) {
    let mut db = MemoryDB::new();
    let acme = db.insert_asset(&asset("ACME", None, None)).unwrap();
    let a = db.insert_ticker(&ticker("A", acme, 1, "EUR")).unwrap();
    let b = db.insert_ticker(&ticker("B", acme, 5, "USD")).unwrap();
    (db, acme, a, b)
}

#[test]
fn quote_resolution_takes_latest() {
    let (mut db, acme, a, b) = acme();
    db.insert_quote(&quote(a, 10.0, "2023-01-01T00:00:00Z")).unwrap();
    db.insert_quote(&quote(b, 9.0, "2022-12-01T00:00:00Z")).unwrap();
    db.insert_quote(&quote(b, 11.0, "2023-01-02T00:00:00Z")).unwrap();
    let (q, c) = db.get_last_quote_before("ACME", at("2023-01-03T00:00:00Z")).unwrap();
    assert_eq!(q.price, num(11.0));
    assert_eq!(q.ticker, b);
    assert_eq!(c, currency("USD"));
    let (q, c) = db.get_last_quote_before_by_id(acme, at("2023-01-03T00:00:00Z")).unwrap();
    assert_eq!(q.price, num(11.0));
    assert_eq!(c, currency("USD"));
}

#[test]
fn quote_resolution_respects_cutoff() {
    let (mut db, acme, a, b) = acme();
    db.insert_quote(&quote(a, 10.0, "2023-01-01T00:00:00Z")).unwrap();
    db.insert_quote(&quote(b, 9.0, "2022-12-01T00:00:00Z")).unwrap();
    db.insert_quote(&quote(b, 11.0, "2023-01-02T00:00:00Z")).unwrap();
    let (q, c) = db.get_last_quote_before_by_id(acme, at("2023-01-01T12:00:00Z")).unwrap();
    assert_eq!(q.price, num(10.0));
    assert_eq!(c, currency("EUR"));
    let (q, _) = db.get_last_quote_before_by_id(acme, at("2023-01-01T00:00:00Z")).unwrap();
    assert_eq!(q.price, num(10.0));
}

#[test]
fn quote_resolution_breaks_ties_by_priority() {
    let (mut db, _acme, a, b) = acme();
    db.insert_quote(&quote(a, 100.0, "2023-02-01T00:00:00Z")).unwrap();
    db.insert_quote(&quote(b, 200.0, "2023-02-01T00:00:00Z")).unwrap();
    let (q, _) = db.get_last_quote_before("ACME", at("2023-02-01T00:00:00Z")).unwrap();
    assert_eq!(q.price, num(200.0));
}

#[test]
fn quote_resolution_without_data_fails() {
    let (mut db, acme, a, _b) = acme();
    assert!(matches!(db.get_last_quote_before_by_id(acme, at("2023-01-03T00:00:00Z")), Err(DataError::NotFound(_))));
    db.insert_quote(&quote(a, 10.0, "2023-01-05T00:00:00Z")).unwrap();
    assert!(matches!(db.get_last_quote_before("ACME", at("2023-01-03T00:00:00Z")), Err(DataError::NotFound(_))));
    assert!(matches!(db.get_last_quote_before("NOPE", at("2023-01-03T00:00:00Z")), Err(DataError::NotFound(_))));
}

#[test]
fn pick_latest_on_lists() {
    let tickers = vec![ticker("A", 1, 1, "EUR"), ticker("B", 1, 5, "USD")];
    let quotes = vec![
        vec![quote(1, 100.0, "2023-02-01T00:00:00Z"), quote(1, 1.0, "2023-03-01T00:00:00Z")],
        vec![quote(2, 200.0, "2023-02-01T00:00:00Z")],
    ];
    assert_eq!(pick_latest(&tickers, &quotes, at("2023-02-01T00:00:00Z")), Some(QuoteIndex { ticker: 1, quote: 0 }));
    assert_eq!(pick_latest(&tickers, &quotes, at("2023-03-01T00:00:00Z")), Some(QuoteIndex { ticker: 0, quote: 1 }));
    assert_eq!(pick_latest(&tickers, &quotes, at("2023-01-01T00:00:00Z")), None);
    let same = vec![ticker("A", 1, 3, "EUR"), ticker("B", 1, 3, "USD")];
    assert_eq!(pick_latest(&same, &quotes, at("2023-02-01T00:00:00Z")), Some(QuoteIndex { ticker: 0, quote: 0 }));
}

#[test]
fn insert_if_new_ticker_twice() {
    let (mut db, acme, _a, _b) = acme();
    let first = db.insert_if_new_ticker(&ticker("C", acme, 2, "GBP")).unwrap();
    let second = db.insert_if_new_ticker(&ticker("C", acme, 9, "CHF")).unwrap();
    assert_eq!(first, second);
    let all = db.get_all_ticker().unwrap();
    assert_eq!(all.iter().filter(|t| t.name == "C").count(), 1);
    assert_eq!(db.get_ticker_by_id(first).unwrap().priority, 2);
    assert_eq!(db.get_ticker_id("C"), Some(first));
    assert_eq!(db.get_ticker_id("D"), None);
}

#[test]
fn rounding_digits_default_and_set() {
    let mut db = MemoryDB::new();
    assert_eq!(db.get_rounding_digits(currency("JPY")), 2);
    db.set_rounding_digits(currency("JPY"), 4).unwrap();
    assert_eq!(db.get_rounding_digits(currency("JPY")), 4);
    db.set_rounding_digits(currency("JPY"), 0).unwrap();
    assert_eq!(db.get_rounding_digits(currency("JPY")), 0);
    assert_eq!(db.get_rounding_digits(currency("EUR")), 2);
}

#[test]
fn asset_lookup_prefers_isin() {
    let mut db = MemoryDB::new();
    let x = db.insert_asset(&asset("X", Some("W1"), Some("DE0001"))).unwrap();
    let y = db.insert_asset(&asset("Y", Some("W2"), Some("DE0002"))).unwrap();
    assert_ne!(x, y);
    assert_eq!(db.get_asset_id(&asset("Q", Some("W1"), Some("DE0002"))), Some(y));
    assert_eq!(db.get_asset_id(&asset("Q", Some("W1"), Some("DE0009"))), None);
    assert_eq!(db.get_asset_id(&asset("Y", Some("W1"), None)), Some(x));
    assert_eq!(db.get_asset_id(&asset("Y", None, None)), Some(y));
    assert_eq!(db.get_asset_id(&asset("Z", None, None)), None);
}

#[test]
fn update_without_id_fails() {
    let (mut db, _acme, a, _b) = acme();
    assert!(matches!(db.update_asset(&asset("ACME", None, None)), Err(DataError::NotFound(_))));
    assert!(matches!(db.update_ticker(&ticker("A", 1, 1, "EUR")), Err(DataError::NotFound(_))));
    assert!(matches!(db.update_quote(&quote(a, 1.0, "2023-01-01T00:00:00Z")), Err(DataError::NotFound(_))));
    let t = Transaction {
        id: None,
        transaction_type: TransactionType::Cash,
        cash_flow: CashFlow {
            amount: CashAmount { amount: num(5.0), currency: currency("EUR") },
            date: Date { year: 2023, month: 1, day: 1 },
        },
        note: None,
    };
    assert!(matches!(db.update_transaction(&t), Err(DataError::NotFound(_))));
}

#[test]
fn update_with_unknown_id_fails() {
    let mut db = MemoryDB::new();
    let mut a = asset("ACME", None, None);
    a.id = Some(99);
    assert!(matches!(db.update_asset(&a), Err(DataError::NotFound(_))));
}

#[test]
fn asset_crud() {
    let mut db = MemoryDB::new();
    let id = db.insert_asset(&asset("ACME", Some("W1"), None)).unwrap();
    let mut stored = db.get_asset_by_id(id).unwrap();
    assert_eq!(stored.id, Some(id));
    assert_eq!(stored.name, "ACME");
    stored.note = Some("renamed".to_string());
    stored.name = "ACME Corp".to_string();
    db.update_asset(&stored).unwrap();
    assert_eq!(db.get_asset_by_id(id).unwrap(), stored);
    assert_eq!(db.get_all_assets().unwrap(), vec![stored]);
    db.delete_asset(id).unwrap();
    db.delete_asset(id).unwrap();
    assert!(matches!(db.get_asset_by_id(id), Err(DataError::NotFound(_))));
    assert!(db.get_all_assets().unwrap().is_empty());
}

#[test]
fn ticker_queries() {
    let (mut db, acme, a, b) = acme();
    let other = db.insert_asset(&asset("Other", None, None)).unwrap();
    let mut t = ticker("O", other, 1, "EUR");
    t.source = "feed".to_string();
    let o = db.insert_ticker(&t).unwrap();
    let ids = |v: Vec<Ticker>| v.iter().map(|t| t.id.unwrap()).collect::<Vec<_>>();
    assert_eq!(ids(db.get_all_ticker_for_asset(acme).unwrap()), vec![a, b]);
    assert_eq!(ids(db.get_all_ticker_for_asset(other).unwrap()), vec![o]);
    assert_eq!(ids(db.get_all_ticker_for_source("manual").unwrap()), vec![a, b]);
    assert_eq!(ids(db.get_all_ticker_for_source("feed").unwrap()), vec![o]);
    let mut moved = db.get_ticker_by_id(o).unwrap();
    moved.asset = acme;
    db.update_ticker(&moved).unwrap();
    assert_eq!(ids(db.get_all_ticker_for_asset(acme).unwrap()), vec![a, b, o]);
    db.delete_ticker(a).unwrap();
    assert_eq!(ids(db.get_all_ticker().unwrap()), vec![b, o]);
}

#[test]
fn quotes_come_by_ascending_time() {
    let (mut db, _acme, a, b) = acme();
    db.insert_quote(&quote(a, 3.0, "2023-03-01T00:00:00Z")).unwrap();
    let q1 = db.insert_quote(&quote(a, 1.0, "2023-01-01T00:00:00Z")).unwrap();
    db.insert_quote(&quote(b, 7.0, "2023-02-01T00:00:00Z")).unwrap();
    db.insert_quote(&quote(a, 2.0, "2023-02-01T00:00:00Z")).unwrap();
    let prices = |v: Vec<Quote>| v.iter().map(|q| f64::from_bits(q.price.bits)).collect::<Vec<_>>();
    assert_eq!(prices(db.get_all_quotes_for_ticker(a).unwrap()), vec![1.0, 2.0, 3.0]);
    assert_eq!(prices(db.get_all_quotes_for_ticker(b).unwrap()), vec![7.0]);
    let mut moved = quote(a, 4.0, "2023-04-01T00:00:00Z");
    moved.id = Some(q1);
    db.update_quote(&moved).unwrap();
    assert_eq!(prices(db.get_all_quotes_for_ticker(a).unwrap()), vec![2.0, 3.0, 4.0]);
    db.delete_quote(q1).unwrap();
    assert_eq!(prices(db.get_all_quotes_for_ticker(a).unwrap()), vec![2.0, 3.0]);
}

#[test]
fn transaction_crud() {
    let mut db = MemoryDB::new();
    let t = Transaction {
        id: None,
        transaction_type: TransactionType::Asset { asset_id: 1, position: num(10.0) },
        cash_flow: CashFlow {
            amount: CashAmount { amount: num(-100.0), currency: currency("EUR") },
            date: Date { year: 2023, month: 5, day: 2 },
        },
        note: Some("buy".to_string()),
    };
    let id = db.insert_transaction(&t).unwrap();
    let mut stored = db.get_transaction_by_id(id).unwrap();
    assert_eq!(stored, Transaction { id: Some(id), ..t.clone() });
    stored.transaction_type = TransactionType::Fee { transaction_ref: Some(id) };
    db.update_transaction(&stored).unwrap();
    assert_eq!(db.get_all_transactions().unwrap(), vec![stored]);
    db.delete_transaction(id).unwrap();
    assert!(db.get_all_transactions().unwrap().is_empty());
}

#[test]
fn ids_are_not_reused() {
    let mut db = MemoryDB::new();
    let a = db.insert_asset(&asset("A", None, None)).unwrap();
    db.delete_asset(a).unwrap();
    let b = db.insert_asset(&asset("B", None, None)).unwrap();
    assert_ne!(a, b);
}

#[test]
fn rounding_default_from_lookup() {
    assert_eq!(digits_or_default(None), 2);
    assert_eq!(digits_or_default(Some(4)), 4);
    assert_eq!(digits_or_default(Some(0)), 0);
}

#[test]
fn reading_back_a_new_id_gives_the_record() {
    let (mut db, acme, a, b) = acme();
    let c = db.insert_ticker(&ticker("C", acme, 3, "CHF")).unwrap();
    assert!(c != a && c != b && c != acme);
    let t = db.get_ticker_by_id(c).unwrap();
    assert_eq!(t, Ticker { id: Some(c), ..ticker("C", acme, 3, "CHF") });
    let q = db.insert_quote(&quote(c, 5.0, "2023-01-01T00:00:00Z")).unwrap();
    assert_eq!(db.get_all_quotes_for_ticker(c).unwrap()[0].id, Some(q));
}

#[test]
fn quote_resolution_ignores_other_assets() {
    let (mut db, acme, a, _b) = acme();
    let other = db.insert_asset(&asset("Other", None, None)).unwrap();
    let o = db.insert_ticker(&ticker("O", other, 9, "GBP")).unwrap();
    db.insert_quote(&quote(o, 50.0, "2023-01-02T00:00:00Z")).unwrap();
    db.insert_quote(&quote(a, 10.0, "2023-01-01T00:00:00Z")).unwrap();
    let (q, c) = db.get_last_quote_before_by_id(acme, at("2023-01-03T00:00:00Z")).unwrap();
    assert_eq!(q.price, num(10.0));
    assert_eq!(c, currency("EUR"));
}

#[test]
fn inserts_need_a_stored_parent() {
    let (mut db, acme, a, _b) = acme();
    assert!(matches!(db.insert_ticker(&ticker("X", acme + 100, 1, "EUR")), Err(DataError::InsertFailed(_))));
    assert!(matches!(db.insert_if_new_ticker(&ticker("X", acme + 100, 1, "EUR")), Err(DataError::InsertFailed(_))));
    assert!(matches!(db.insert_quote(&quote(a + 100, 1.0, "2023-01-01T00:00:00Z")), Err(DataError::InsertFailed(_))));
    assert_eq!(db.get_ticker_id("X"), None);
    assert!(db.get_all_quotes_for_ticker(a + 100).unwrap().is_empty());
}

#[test]
fn resolve_quote_on_lists() {
    let tickers = vec![ticker("A", 1, 1, "EUR"), ticker("B", 1, 5, "USD")];
    let quotes = vec![
        vec![quote(1, 10.0, "2023-01-01T00:00:00Z")],
        vec![quote(2, 9.0, "2022-12-01T00:00:00Z"), quote(2, 11.0, "2023-01-02T00:00:00Z")],
    ];
    let (q, c) = resolve_quote(&tickers, &quotes, at("2023-01-03T00:00:00Z")).unwrap();
    assert_eq!(q.price, num(11.0));
    assert_eq!(c, currency("USD"));
    assert!(matches!(resolve_quote(&tickers, &quotes, at("2022-11-01T00:00:00Z")), Err(DataError::NotFound(_))));
}

#[test]
fn ids_count_up_from_one() {
    let mut db = MemoryDB::new();
    assert_eq!(db.insert_asset(&asset("A", None, None)), Ok(1));
    assert_eq!(db.insert_ticker(&ticker("T", 1, 1, "EUR")), Ok(2));
    assert_eq!(db.insert_quote(&quote(2, 1.0, "2023-01-01T00:00:00Z")), Ok(3));
}
