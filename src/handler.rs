//! The storage contract: what a backend offers for assets, tickers and
//! quotes, and transactions. The rules that do not depend on the backend
//! (creating a ticker only once, picking the applicable quote) are written
//! here once, over the backend's own operations.

use vstd::prelude::*;
use crate::model::{Asset, Currency, DataError, Quote, Ticker, Transaction};
use crate::resolver::resolve_quote;
use crate::time::Instant;

verus! {

/// A stored asset is the one that `query` names: the same ISIN where the
/// query has one; else the same WKN where it has one; else the same name.
pub open spec fn asset_matches(query: Asset, stored: Asset) -> bool {
    match query.isin {
        Some(isin) => stored.isin is Some && stored.isin->0@ == isin@,
        None => match query.wkn {
            Some(wkn) => stored.wkn is Some && stored.wkn->0@ == wkn@,
            None => stored.name@ == query.name@,
        },
    }
}

/// `k` is the first stored asset with an id that `query` names.
pub open spec fn first_match_at(assets: Seq<Asset>, query: Asset, k: int) -> bool {
    &&& 0 <= k < assets.len()
    &&& asset_matches(query, assets[k]) && assets[k].id is Some
    &&& forall|j: int| 0 <= j < k ==> !(asset_matches(query, #[trigger] assets[j]) && assets[j].id is Some)
}

/// The id of the first stored asset that `query` names.
pub open spec fn asset_id_of(assets: Seq<Asset>, query: Asset) -> Option<usize> {
    if exists|k: int| first_match_at(assets, query, k) {
        assets[choose|k: int| first_match_at(assets, query, k)].id
    } else {
        None
    }
}

fn asset_matches_exec(query: &Asset, stored: &Asset) -> (r: bool)
    ensures
        r == asset_matches(*query, *stored),
{
    match &query.isin {
        Some(isin) => match &stored.isin {
            Some(s) => *s == *isin,
            None => false,
        },
        None => match &query.wkn {
            Some(wkn) => match &stored.wkn {
                Some(s) => *s == *wkn,
                None => false,
            },
            None => stored.name == query.name,
        },
    }
}

/// The id of the first asset of `assets` that has an id and that `query`
/// names (see `asset_matches`).
pub fn find_asset(assets: &Vec<Asset>, query: &Asset) -> (r: Option<usize>)
    ensures
        r == asset_id_of(assets@, *query),
        r is Some ==> exists|k: int|
            0 <= k < assets@.len() && asset_matches(*query, assets@[k]) && assets@[k].id == r,
        (forall|k: int| 0 <= k < assets@.len() ==> (#[trigger] assets@[k]).id is Some) ==> (r is None
            <==> forall|k: int| 0 <= k < assets@.len() ==> !asset_matches(*query, #[trigger] assets@[k])),
{
    let mut k: usize = 0;
    while k < assets.len()
        invariant
            k <= assets@.len(),
            forall|j: int| 0 <= j < k ==> !(asset_matches(*query, #[trigger] assets@[j]) && assets@[j].id is Some),
        decreases assets.len() - k,
    {
        if asset_matches_exec(query, &assets[k]) && assets[k].id.is_some() {
            assert(first_match_at(assets@, *query, k as int));
            return assets[k].id;
        }
        k = k + 1;
    }
    None
}

/// An asset with an ISIN is looked up by its ISIN alone: the id found is that
/// of a stored asset with the same ISIN, and where no stored asset has it,
/// none is found, whatever WKN or name the stored assets share with it.
pub proof fn lemma_isin_decides(assets: Seq<Asset>, query: Asset)
    requires
        query.isin is Some,
    ensures
        asset_id_of(assets, query) is Some ==> exists|k: int|
            0 <= k < assets.len() && assets[k].id == asset_id_of(assets, query) && assets[k].isin is Some
                && assets[k].isin->0@ == query.isin->0@,
        (forall|k: int| 0 <= k < assets.len() ==> (#[trigger] assets[k]).isin is None || assets[k].isin->0@
            != query.isin->0@) ==> asset_id_of(assets, query) is None,
{
    if exists|k: int| first_match_at(assets, query, k) {
        let k = choose|k: int| first_match_at(assets, query, k);
        assert(assets[k].isin is Some && assets[k].isin->0@ == query.isin->0@);
    }
}

/// The rounding digits of a currency for which none were set.
pub const DEFAULT_ROUNDING_DIGITS: i32 = 2;

/// The rounding digits of a currency, from what a lookup found: those found,
/// else the default.
pub fn digits_or_default(found: Option<i32>) -> (r: i32)
    ensures
        r == match found {
            Some(d) => d,
            None => DEFAULT_ROUNDING_DIGITS,
        },
{
    match found {
        Some(d) => d,
        None => DEFAULT_ROUNDING_DIGITS,
    }
}

/// Storage of assets.
pub trait AssetHandler {
    /// Stores a new asset and returns the id given to it.
    fn insert_asset(&mut self, asset: &Asset) -> Result<usize, DataError>;

    /// The id of the stored asset with the same ISIN, if `asset` has one;
    /// else with the same WKN, if it has one; else with the same name (see
    /// `asset_matches`).
    fn get_asset_id(&mut self, asset: &Asset) -> Option<usize>;

    fn get_asset_by_id(&mut self, id: usize) -> Result<Asset, DataError>;

    fn get_all_assets(&mut self) -> Result<Vec<Asset>, DataError>;

    /// Overwrites the stored asset of `asset.id`.
    fn update_asset(&mut self, asset: &Asset) -> (r: Result<(), DataError>)
        ensures
            asset.id is None ==> r is Err && r->Err_0 is NotFound,
    ;

    fn delete_asset(&mut self, id: usize) -> Result<(), DataError>;
}

/// Storage of tickers, their quotes, and the rounding convention of each
/// currency.
pub trait QuoteHandler: AssetHandler {
    fn insert_ticker(&mut self, ticker: &Ticker) -> Result<usize, DataError>;

    /// The id of the ticker of this name, if one is stored.
    fn get_ticker_id(&mut self, ticker: &str) -> Option<usize>;

    /// The id of the stored ticker of the same name; where there is none,
    /// stores `ticker` and returns its new id.
    fn insert_if_new_ticker(&mut self, ticker: &Ticker) -> Result<usize, DataError> {
        match self.get_ticker_id(ticker.name.as_str()) {
            Some(id) => Ok(id),
            None => self.insert_ticker(ticker),
        }
    }

    fn get_ticker_by_id(&mut self, id: usize) -> Result<Ticker, DataError>;

    fn get_all_ticker(&mut self) -> Result<Vec<Ticker>, DataError>;

    fn get_all_ticker_for_source(&mut self, source: &str) -> Result<Vec<Ticker>, DataError>;

    /// All tickers of the asset of id `asset_id`.
    fn get_all_ticker_for_asset(&mut self, asset_id: usize) -> Result<Vec<Ticker>, DataError>;

    /// Overwrites the stored ticker of `ticker.id`.
    fn update_ticker(&mut self, ticker: &Ticker) -> (r: Result<(), DataError>)
        ensures
            ticker.id is None ==> r is Err && r->Err_0 is NotFound,
    ;

    fn delete_ticker(&mut self, id: usize) -> Result<(), DataError>;

    fn insert_quote(&mut self, quote: &Quote) -> Result<usize, DataError>;

    /// The quote that prices the asset named `asset_name` at `time`, with the
    /// currency of its ticker (see `get_last_quote_before_by_id`).
    fn get_last_quote_before(&mut self, asset_name: &str, time: Instant) -> (r: Result<(Quote, Currency), DataError>)
        ensures
            match r {
                Ok((q, _)) => q.time.spec_at_or_before(time),
                Err(_) => true,
            },
    {
        let probe = Asset {
            id: None,
            name: String::from_str(asset_name),
            wkn: None,
            isin: None,
            note: None,
        };
        match self.get_asset_id(&probe) {
            Some(asset_id) => self.get_last_quote_before_by_id(asset_id, time),
            None => Err(DataError::NotFound(String::from_str("no asset of this name"))),
        }
    }

    /// The quote that prices the asset of id `asset_id` at `time`, with the
    /// currency of its ticker: the latest quote at or before `time` of all the
    /// asset's tickers, of the ticker of highest priority where several share
    /// that time. Fails with `NotFound` where there is no such quote.
    fn get_last_quote_before_by_id(&mut self, asset_id: usize, time: Instant) -> (r: Result<(Quote, Currency), DataError>)
        ensures
            match r {
                Ok((q, _)) => q.time.spec_at_or_before(time),
                Err(_) => true,
            },
    {
        let tickers = match self.get_all_ticker_for_asset(asset_id) {
            Ok(t) => t,
            Err(e) => return Err(e),
        };
        let mut quotes: Vec<Vec<Quote>> = Vec::new();
        let mut k: usize = 0;
        while k < tickers.len()
            invariant
                k <= tickers.len(),
                quotes.len() == k,
            decreases tickers.len() - k,
        {
            let qs = match tickers[k].id {
                Some(ticker_id) => match self.get_all_quotes_for_ticker(ticker_id) {
                    Ok(qs) => qs,
                    Err(e) => return Err(e),
                },
                None => Vec::new(),
            };
            quotes.push(qs);
            k = k + 1;
        }
        resolve_quote(&tickers, &quotes, time)
    }

    /// All quotes of the ticker of id `ticker_id`, by ascending time.
    fn get_all_quotes_for_ticker(&mut self, ticker_id: usize) -> Result<Vec<Quote>, DataError>;

    /// Overwrites the stored quote of `quote.id`.
    fn update_quote(&mut self, quote: &Quote) -> (r: Result<(), DataError>)
        ensures
            quote.id is None ==> r is Err && r->Err_0 is NotFound,
    ;

    fn delete_quote(&mut self, id: usize) -> Result<(), DataError>;

    /// The number of decimal digits to which amounts of `currency` are
    /// rounded: 2 where none was set. Never fails.
    fn get_rounding_digits(&mut self, currency: Currency) -> i32;

    fn set_rounding_digits(&mut self, currency: Currency, digits: i32) -> Result<(), DataError>;
}

/// Storage of transactions.
pub trait TransactionHandler: AssetHandler {
    fn insert_transaction(&mut self, transaction: &Transaction) -> Result<usize, DataError>;

    fn get_transaction_by_id(&mut self, id: usize) -> Result<Transaction, DataError>;

    fn get_all_transactions(&mut self) -> Result<Vec<Transaction>, DataError>;

    /// Overwrites the stored transaction of `transaction.id`.
    fn update_transaction(&mut self, transaction: &Transaction) -> (r: Result<(), DataError>)
        ensures
            transaction.id is None ==> r is Err && r->Err_0 is NotFound,
    ;

    fn delete_transaction(&mut self, id: usize) -> Result<(), DataError>;
}

} // verus!
