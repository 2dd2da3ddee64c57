//! A backend that keeps every table in memory.

use vstd::prelude::*;
use crate::handler::{
    asset_id_of, asset_matches, digits_or_default, find_asset, first_match_at, AssetHandler, QuoteHandler,
    TransactionHandler,
};
use crate::model::{Asset, Currency, DataError, Quote, Ticker, Transaction};
use crate::resolver::{has_eligible, is_pick, lists_view, resolve_quote};
use crate::time::Instant;
use crate::table::{
    copy_all, delete_record, get_record, has_record, ids_valid, lemma_remove_keeps_ids, lemma_update_keeps_ids,
    update_record, Record, lemma_filter_step, lemma_filter_within,
};

verus! {

/// The number of decimal digits to which amounts of a currency are rounded.
#[derive(Clone, Debug, PartialEq)]
pub struct RoundingEntry {
    pub currency: Currency,
    pub digits: i32,
}

/// No two rounding entries are for the same currency.
pub open spec fn codes_unique(entries: Seq<RoundingEntry>) -> bool {
    forall|j: int, k: int|
        0 <= j < entries.len() && 0 <= k < entries.len() && j != k ==> (#[trigger] entries[j]).currency.code@
            != (#[trigger] entries[k]).currency.code@
}

/// `k` is the first entry for the currency of code `code`.
pub open spec fn first_entry_at(entries: Seq<RoundingEntry>, code: Seq<char>, k: int) -> bool {
    &&& 0 <= k < entries.len()
    &&& entries[k].currency.code@ == code
    &&& forall|j: int| 0 <= j < k ==> (#[trigger] entries[j]).currency.code@ != code
}

/// The digits set for a currency: those of its first entry, else 2.
pub open spec fn rounding_of(entries: Seq<RoundingEntry>, code: Seq<char>) -> i32 {
    if exists|k: int| first_entry_at(entries, code, k) {
        entries[choose|k: int| first_entry_at(entries, code, k)].digits
    } else {
        2
    }
}

/// The entries after setting the digits of `currency`: its first entry is
/// overwritten, or a new entry is added where there was none.
pub open spec fn upsert_rounding(entries: Seq<RoundingEntry>, currency: Currency, digits: i32) -> Seq<RoundingEntry> {
    if exists|k: int| first_entry_at(entries, currency.code@, k) {
        entries.update(
            choose|k: int| first_entry_at(entries, currency.code@, k),
            RoundingEntry { currency, digits },
        )
    } else {
        entries.push(RoundingEntry { currency, digits })
    }
}

/// `k` is the first ticker named `name`.
pub open spec fn first_named_at(tickers: Seq<Ticker>, name: Seq<char>, k: int) -> bool {
    &&& 0 <= k < tickers.len()
    &&& tickers[k].name@ == name
    &&& forall|j: int| 0 <= j < k ==> (#[trigger] tickers[j]).name@ != name
}

/// The id of the first ticker named `name`.
pub open spec fn ticker_id_of(tickers: Seq<Ticker>, name: Seq<char>) -> Option<usize> {
    if exists|k: int| first_named_at(tickers, name, k) {
        tickers[choose|k: int| first_named_at(tickers, name, k)].id
    } else {
        None
    }
}

/// The tickers of the asset of id `asset_id`, in stored order.
pub open spec fn tickers_of_asset(tickers: Seq<Ticker>, asset_id: usize) -> Seq<Ticker> {
    tickers.filter(|t: Ticker| t.asset == asset_id)
}

/// The quotes of the ticker of id `ticker_id`, in stored order.
pub open spec fn quotes_of_ticker(quotes: Seq<Quote>, ticker_id: usize) -> Seq<Quote> {
    quotes.filter(|q: Quote| q.ticker == ticker_id)
}

/// The quotes of each ticker of `tickers` (none for a ticker without id).
pub open spec fn quote_lists(quotes: Seq<Quote>, tickers: Seq<Ticker>) -> Seq<Seq<Quote>> {
    Seq::new(
        tickers.len(),
        |i: int|
            match tickers[i].id {
                Some(t) => quotes_of_ticker(quotes, t),
                None => Seq::empty(),
            },
    )
}

/// What the quote of the asset of id `asset_id` at `time` is on the stored
/// tickers and quotes: the pick among the quotes of the asset's tickers,
/// with the currency of its ticker, or `NotFound` where no quote is at or
/// before `time`.
pub open spec fn resolves(
    tickers: Seq<Ticker>,
    quotes: Seq<Quote>,
    asset_id: usize,
    time: Instant,
    r: Result<(Quote, Currency), DataError>,
) -> bool {
    let ts = tickers_of_asset(tickers, asset_id);
    let qs = quote_lists(quotes, ts);
    match r {
        Ok((q, c)) => exists|i: int, j: int| is_pick(ts, qs, time, i, j) && q == qs[i][j] && c == ts[i].currency,
        Err(e) => e is NotFound && !has_eligible(qs, time),
    }
}

/// `k` is the first stored asset with an id and the name `name`.
pub open spec fn first_named_asset_at(assets: Seq<Asset>, name: Seq<char>, k: int) -> bool {
    &&& 0 <= k < assets.len()
    &&& assets[k].name@ == name && assets[k].id is Some
    &&& forall|j: int| 0 <= j < k ==> !((#[trigger] assets[j]).name@ == name && assets[j].id is Some)
}

/// The id of the first stored asset named `name`.
pub open spec fn asset_id_by_name(assets: Seq<Asset>, name: Seq<char>) -> Option<usize> {
    if exists|k: int| first_named_asset_at(assets, name, k) {
        assets[choose|k: int| first_named_asset_at(assets, name, k)].id
    } else {
        None
    }
}

/// Looking an asset up by a query with neither ISIN nor WKN is looking it
/// up by name.
proof fn lemma_lookup_by_name(assets: Seq<Asset>, query: Asset)
    requires
        query.isin is None,
        query.wkn is None,
    ensures
        asset_id_of(assets, query) == asset_id_by_name(assets, query.name@),
{
    let name = query.name@;
    assert forall|k: int| first_match_at(assets, query, k) == first_named_asset_at(assets, name, k) by {}
    if exists|k: int| first_named_asset_at(assets, name, k) {
        let c1 = choose|k: int| first_match_at(assets, query, k);
        let c2 = choose|k: int| first_named_asset_at(assets, name, k);
        assert(first_match_at(assets, query, c2));
        assert(c1 == c2) by {
            if c1 < c2 {
                assert(!(assets[c1].name@ == name && assets[c1].id is Some));
            } else if c2 < c1 {
                assert(!(assets[c2].name@ == name && assets[c2].id is Some));
            }
        }
    }
}

/// Quotes by ascending time.
pub open spec fn by_time(quotes: Seq<Quote>) -> bool {
    forall|j: int, k: int| 0 <= j < k < quotes.len() ==> (#[trigger] quotes[j]).time.spec_at_or_before(
        (#[trigger] quotes[k]).time,
    )
}

/// Every table, in memory. Ids come from one counter and are never reused;
/// quotes are kept by ascending time.
pub struct MemoryDB {
    assets: Vec<Asset>,
    tickers: Vec<Ticker>,
    quotes: Vec<Quote>,
    transactions: Vec<Transaction>,
    rounding: Vec<RoundingEntry>,
    next_id: usize,
}

impl MemoryDB {
    pub closed spec fn stored_assets(&self) -> Seq<Asset> {
        self.assets@
    }

    pub closed spec fn stored_tickers(&self) -> Seq<Ticker> {
        self.tickers@
    }

    pub closed spec fn stored_quotes(&self) -> Seq<Quote> {
        self.quotes@
    }

    pub closed spec fn stored_transactions(&self) -> Seq<Transaction> {
        self.transactions@
    }

    pub closed spec fn rounding_entries(&self) -> Seq<RoundingEntry> {
        self.rounding@
    }

    /// The id that the next insert gives.
    pub closed spec fn next_id(&self) -> nat {
        self.next_id as nat
    }

    /// Every stored record has an id that was given before, no two records
    /// of a table share one, and the quotes are by ascending time.
    pub open spec fn wf(&self) -> bool {
        &&& ids_valid(self.stored_assets(), self.next_id())
        &&& ids_valid(self.stored_tickers(), self.next_id())
        &&& ids_valid(self.stored_quotes(), self.next_id())
        &&& ids_valid(self.stored_transactions(), self.next_id())
        &&& by_time(self.stored_quotes())
        &&& codes_unique(self.rounding_entries())
    }

    /// `self` holds the same records and counter as `other`.
    pub open spec fn same_as(&self, other: &MemoryDB) -> bool {
        &&& self.stored_assets() == other.stored_assets()
        &&& self.stored_tickers() == other.stored_tickers()
        &&& self.stored_quotes() == other.stored_quotes()
        &&& self.stored_transactions() == other.stored_transactions()
        &&& self.rounding_entries() == other.rounding_entries()
        &&& self.next_id() == other.next_id()
    }

    /// `self` holds the same tickers, quotes, transactions and rounding
    /// entries as `other`.
    pub open spec fn keeps_all_but_assets(&self, other: &MemoryDB) -> bool {
        &&& self.stored_tickers() == other.stored_tickers()
        &&& self.stored_quotes() == other.stored_quotes()
        &&& self.stored_transactions() == other.stored_transactions()
        &&& self.rounding_entries() == other.rounding_entries()
    }

    /// `self` holds the same assets, quotes, transactions and rounding
    /// entries as `other`.
    pub open spec fn keeps_all_but_tickers(&self, other: &MemoryDB) -> bool {
        &&& self.stored_assets() == other.stored_assets()
        &&& self.stored_quotes() == other.stored_quotes()
        &&& self.stored_transactions() == other.stored_transactions()
        &&& self.rounding_entries() == other.rounding_entries()
    }

    /// `self` holds the same assets, tickers, transactions and rounding
    /// entries as `other`.
    pub open spec fn keeps_all_but_quotes(&self, other: &MemoryDB) -> bool {
        &&& self.stored_assets() == other.stored_assets()
        &&& self.stored_tickers() == other.stored_tickers()
        &&& self.stored_transactions() == other.stored_transactions()
        &&& self.rounding_entries() == other.rounding_entries()
    }

    /// `self` holds the same assets, tickers, quotes and rounding entries as
    /// `other`.
    pub open spec fn keeps_all_but_transactions(&self, other: &MemoryDB) -> bool {
        &&& self.stored_assets() == other.stored_assets()
        &&& self.stored_tickers() == other.stored_tickers()
        &&& self.stored_quotes() == other.stored_quotes()
        &&& self.rounding_entries() == other.rounding_entries()
    }

    /// An empty store.
    pub fn new() -> (r: MemoryDB)
        ensures
            r.wf(),
            r.stored_assets().len() == 0,
            r.stored_tickers().len() == 0,
            r.stored_quotes().len() == 0,
            r.stored_transactions().len() == 0,
            r.rounding_entries().len() == 0,
            r.next_id() == 1,
    {
        MemoryDB {
            assets: Vec::new(),
            tickers: Vec::new(),
            quotes: Vec::new(),
            transactions: Vec::new(),
            rounding: Vec::new(),
            next_id: 1,
        }
    }

    /// Takes the next id from the counter.
    fn take_id(&mut self) -> (r: Result<usize, DataError>)
        ensures
            r is Ok <==> old(self).next_id < usize::MAX,
            r is Ok ==> r->Ok_0 == old(self).next_id && final(self).next_id == old(self).next_id + 1,
            r is Err ==> r->Err_0 is InsertFailed && final(self).next_id == old(self).next_id,
            final(self).assets == old(self).assets,
            final(self).tickers == old(self).tickers,
            final(self).quotes == old(self).quotes,
            final(self).transactions == old(self).transactions,
            final(self).rounding == old(self).rounding,
    {
        if self.next_id == usize::MAX {
            return Err(DataError::InsertFailed(String::from_str("no id left")));
        }
        let id = self.next_id;
        self.next_id = id + 1;
        Ok(id)
    }
}

/// Adds a record with the fresh id `id` to a table.
fn push_with_id<T: Record>(v: &mut Vec<T>, rec: &T, id: usize, next: Ghost<nat>)
    requires
        id >= next@,
    ensures
        final(v)@ == old(v)@.push(rec.spec_with_id(id)),
        ids_valid(old(v)@, next@) ==> ids_valid(final(v)@, id as nat + 1),
{
    let r = rec.with_id(id);
    v.push(r);
    assert(final(v)@[old(v)@.len() as int].spec_id() == Some(id));
}

impl AssetHandler for MemoryDB {
    fn insert_asset(&mut self, asset: &Asset) -> (r: Result<usize, DataError>)
        ensures
            r is Ok <==> old(self).next_id() < usize::MAX,
            old(self).wf() && r is Ok ==> forall|k: int|
                0 <= k < old(self).stored_assets().len() ==> #[trigger] old(self).stored_assets()[k].spec_id() != Some(r->Ok_0),
            r is Ok ==> r->Ok_0 == old(self).next_id() && final(self).stored_assets()
                == old(self).stored_assets().push(asset.spec_with_id(r->Ok_0)),
            r is Err ==> r->Err_0 is InsertFailed && final(self).same_as(old(self)),
            old(self).wf() ==> final(self).wf(),
            final(self).keeps_all_but_assets(old(self)),
            r is Ok ==> final(self).next_id() == old(self).next_id() + 1,
    {
        let ghost next = self.next_id as nat;
        let id = match self.take_id() {
            Ok(id) => id,
            Err(e) => return Err(e),
        };
        push_with_id(&mut self.assets, asset, id, Ghost(next));
        Ok(id)
    }

    fn get_asset_id(&mut self, asset: &Asset) -> (r: Option<usize>)
        ensures
            r == asset_id_of(old(self).stored_assets(), *asset),
            r is Some ==> exists|k: int|
                0 <= k < old(self).stored_assets().len() && asset_matches(*asset, old(self).stored_assets()[k])
                    && old(self).stored_assets()[k].id == r,
            old(self).wf() ==> (r is None <==> forall|k: int|
                0 <= k < old(self).stored_assets().len() ==> !asset_matches(*asset, #[trigger] old(self).stored_assets()[k])),
            final(self).same_as(old(self)),
    {
        proof {
            if self.wf() {
                assert forall|k: int| 0 <= k < self.assets@.len() implies (#[trigger] self.assets@[k]).id is Some by {
                    assert(self.assets@[k].spec_id() is Some);
                }
            }
        }
        find_asset(&self.assets, asset)
    }

    fn get_asset_by_id(&mut self, id: usize) -> (r: Result<Asset, DataError>)
        ensures
            r is Ok <==> exists|k: int| 0 <= k < old(self).stored_assets().len() && #[trigger] old(self).stored_assets()[k].spec_id() == Some(id),
            r is Ok ==> r->Ok_0.id == Some(id) && old(self).stored_assets().contains(r->Ok_0),
            old(self).wf() && r is Ok ==> forall|k: int|
                0 <= k < old(self).stored_assets().len() && #[trigger] old(self).stored_assets()[k].spec_id() == Some(id)
                    ==> r->Ok_0 == old(self).stored_assets()[k],
            r is Err ==> r->Err_0 is NotFound,
            final(self).same_as(old(self)),
    {
        get_record(&self.assets, id)
    }

    fn get_all_assets(&mut self) -> (r: Result<Vec<Asset>, DataError>)
        ensures
            r is Ok && r->Ok_0@ == old(self).stored_assets(),
            final(self).same_as(old(self)),
    {
        Ok(copy_all(&self.assets))
    }

    fn update_asset(&mut self, asset: &Asset) -> (r: Result<(), DataError>)
        ensures
            asset.id is None ==> r is Err && r->Err_0 is NotFound,
            r is Ok <==> asset.id is Some && exists|k: int|
                0 <= k < old(self).stored_assets().len() && #[trigger] old(self).stored_assets()[k].spec_id() == asset.spec_id(),
            r is Ok ==> exists|k: int|
                0 <= k < old(self).stored_assets().len() && old(self).stored_assets()[k].spec_id() == asset.spec_id()
                    && final(self).stored_assets() == old(self).stored_assets().update(k, *asset),
            r is Err ==> r->Err_0 is NotFound && final(self).same_as(old(self)),
            old(self).wf() ==> final(self).wf(),
            final(self).keeps_all_but_assets(old(self)),
            final(self).next_id() == old(self).next_id(),
    {
        let ghost before = self.assets@;
        let r = update_record(&mut self.assets, asset);
        proof {
            assert(before == old(self).stored_assets());
            assert(self.assets@ == final(self).stored_assets());
            if r is Ok {
                let k = choose|k: int|
                    0 <= k < before.len() && before[k].spec_id() == asset.spec_id() && self.assets@ == before.update(k, *asset);
                if ids_valid(before, self.next_id as nat) {
                    lemma_update_keeps_ids(before, k, *asset, self.next_id as nat);
                }
            }
        }
        r
    }

    fn delete_asset(&mut self, id: usize) -> (r: Result<(), DataError>)
        ensures
            r is Ok,
            (forall|k: int| 0 <= k < old(self).stored_assets().len() ==> #[trigger] old(self).stored_assets()[k].spec_id() != Some(id))
                ==> final(self).same_as(old(self)),
            (exists|k: int| 0 <= k < old(self).stored_assets().len() && #[trigger] old(self).stored_assets()[k].spec_id() == Some(id))
                ==> exists|k: int| 0 <= k < old(self).stored_assets().len() && old(self).stored_assets()[k].spec_id() == Some(id)
                    && final(self).stored_assets() == old(self).stored_assets().remove(k),
            old(self).wf() ==> final(self).wf(),
            final(self).keeps_all_but_assets(old(self)),
            final(self).next_id() == old(self).next_id(),
    {
        let ghost before = self.assets@;
        delete_record(&mut self.assets, id);
        proof {
            if self.assets@ != before && ids_valid(before, self.next_id as nat) {
                let k = choose|k: int| 0 <= k < before.len() && before[k].spec_id() == Some(id) && self.assets@ == before.remove(k);
                lemma_remove_keeps_ids(before, k, self.next_id as nat);
            }
        }
        Ok(())
    }
}

/// Inserts a quote after every quote of an earlier or the same time.
fn insert_by_time(v: &mut Vec<Quote>, q: Quote)
    ensures
        exists|p: int| 0 <= p <= old(v)@.len() && final(v)@ == old(v)@.insert(p, q),
        by_time(old(v)@) ==> by_time(final(v)@),
{
    let mut p: usize = 0;
    let mut found = false;
    while p < v.len() && !found
        invariant
            p <= v@.len(),
            forall|j: int| 0 <= j < p ==> (#[trigger] v@[j]).time.spec_at_or_before(q.time),
            found ==> p < v@.len() && !v@[p as int].time.spec_at_or_before(q.time),
        decreases v.len() - p + (if found { 0int } else { 1int }),
    {
        if v[p].time.at_or_before(&q.time) {
            p = p + 1;
        } else {
            found = true;
        }
    }
    let ghost before = v@;
    v.insert(p, q);
    proof {
        if by_time(before) {
            let after = v@;
            assert forall|j: int, k: int| 0 <= j < k < after.len() implies (#[trigger] after[j]).time.spec_at_or_before(
                (#[trigger] after[k]).time,
            ) by {
                if k == p {
                    assert(after[j] == before[j]);
                } else if j == p {
                    assert(after[k] == before[k - 1]);
                    assert(before[p as int].time.spec_at_or_before(before[k - 1].time));
                } else if k < p {
                    assert(after[j] == before[j] && after[k] == before[k]);
                } else if j < p {
                    assert(after[j] == before[j] && after[k] == before[k - 1]);
                } else {
                    assert(after[j] == before[j - 1] && after[k] == before[k - 1]);
                }
            }
        }
    }
}

impl QuoteHandler for MemoryDB {
    fn insert_ticker(&mut self, ticker: &Ticker) -> (r: Result<usize, DataError>)
        ensures
            r is Ok <==> old(self).next_id() < usize::MAX && has_record(old(self).stored_assets(), ticker.asset),
            old(self).wf() && r is Ok ==> forall|k: int|
                0 <= k < old(self).stored_tickers().len() ==> #[trigger] old(self).stored_tickers()[k].spec_id() != Some(r->Ok_0),
            r is Ok ==> r->Ok_0 == old(self).next_id() && final(self).stored_tickers()
                == old(self).stored_tickers().push(ticker.spec_with_id(r->Ok_0)),
            r is Err ==> r->Err_0 is InsertFailed && final(self).same_as(old(self)),
            old(self).wf() ==> final(self).wf(),
            final(self).keeps_all_but_tickers(old(self)),
            r is Ok ==> final(self).next_id() == old(self).next_id() + 1,
    {
        if crate::table::position_of(&self.assets, ticker.asset).is_none() {
            return Err(DataError::InsertFailed(String::from_str("no such parent record")));
        }
        let ghost next = self.next_id as nat;
        let id = match self.take_id() {
            Ok(id) => id,
            Err(e) => return Err(e),
        };
        push_with_id(&mut self.tickers, ticker, id, Ghost(next));
        Ok(id)
    }

    fn get_ticker_id(&mut self, ticker: &str) -> (r: Option<usize>)
        ensures
            r == ticker_id_of(old(self).stored_tickers(), ticker@),
            r is Some ==> exists|k: int|
                0 <= k < old(self).stored_tickers().len() && old(self).stored_tickers()[k].name@ == ticker@
                    && old(self).stored_tickers()[k].id == r,
            old(self).wf() ==> (r is None <==> forall|k: int|
                0 <= k < old(self).stored_tickers().len() ==> (#[trigger] old(self).stored_tickers()[k]).name@ != ticker@),
            final(self).same_as(old(self)),
    {
        let name = String::from_str(ticker);
        let mut k: usize = 0;
        while k < self.tickers.len()
            invariant
                k <= self.tickers@.len(),
                name@ == ticker@,
                forall|j: int| 0 <= j < k ==> (#[trigger] self.tickers@[j]).name@ != ticker@,
            decreases self.tickers.len() - k,
        {
            if self.tickers[k].name == name {
                assert(first_named_at(self.tickers@, ticker@, k as int));
                assert(self.wf() ==> self.tickers@[k as int].spec_id() is Some);
                return self.tickers[k].id;
            }
            k = k + 1;
        }
        None
    }

    fn insert_if_new_ticker(&mut self, ticker: &Ticker) -> (r: Result<usize, DataError>)
        ensures
            ticker_id_of(old(self).stored_tickers(), ticker.name@) is Some ==> r == Ok::<usize, DataError>(
                ticker_id_of(old(self).stored_tickers(), ticker.name@)->0,
            ) && final(self).same_as(old(self)),
            ticker_id_of(old(self).stored_tickers(), ticker.name@) is None ==> {
                &&& r is Ok <==> old(self).next_id() < usize::MAX && has_record(old(self).stored_assets(), ticker.asset)
                &&& r is Ok ==> r->Ok_0 == old(self).next_id() && final(self).stored_tickers()
                    == old(self).stored_tickers().push(ticker.spec_with_id(r->Ok_0))
                &&& r is Err ==> r->Err_0 is InsertFailed && final(self).same_as(old(self))
                &&& r is Ok ==> final(self).next_id() == old(self).next_id() + 1
            },
            old(self).wf() ==> final(self).wf(),
            final(self).keeps_all_but_tickers(old(self)),
    {
        match self.get_ticker_id(ticker.name.as_str()) {
            Some(id) => Ok(id),
            None => self.insert_ticker(ticker),
        }
    }

    fn get_ticker_by_id(&mut self, id: usize) -> (r: Result<Ticker, DataError>)
        ensures
            r is Ok <==> exists|k: int|
                0 <= k < old(self).stored_tickers().len() && #[trigger] old(self).stored_tickers()[k].spec_id() == Some(id),
            r is Ok ==> r->Ok_0.id == Some(id) && old(self).stored_tickers().contains(r->Ok_0),
            old(self).wf() && r is Ok ==> forall|k: int|
                0 <= k < old(self).stored_tickers().len() && #[trigger] old(self).stored_tickers()[k].spec_id() == Some(id)
                    ==> r->Ok_0 == old(self).stored_tickers()[k],
            r is Err ==> r->Err_0 is NotFound,
            final(self).same_as(old(self)),
    {
        get_record(&self.tickers, id)
    }

    fn get_all_ticker(&mut self) -> (r: Result<Vec<Ticker>, DataError>)
        ensures
            r is Ok && r->Ok_0@ == old(self).stored_tickers(),
            final(self).same_as(old(self)),
    {
        Ok(copy_all(&self.tickers))
    }

    fn get_all_ticker_for_source(&mut self, source: &str) -> (r: Result<Vec<Ticker>, DataError>)
        ensures
            r is Ok && r->Ok_0@ == old(self).stored_tickers().filter(|t: Ticker| t.source@ == source@),
            final(self).same_as(old(self)),
    {
        let wanted = String::from_str(source);
        let ghost pred = |t: Ticker| t.source@ == source@;
        let mut out: Vec<Ticker> = Vec::new();
        let mut k: usize = 0;
        while k < self.tickers.len()
            invariant
                k <= self.tickers@.len(),
                wanted@ == source@,
                pred == (|t: Ticker| t.source@ == source@),
                out@ == self.tickers@.subrange(0, k as int).filter(pred),
            decreases self.tickers.len() - k,
        {
            if self.tickers[k].source == wanted {
                out.push(self.tickers[k].copy());
            }
            proof {
                lemma_filter_step(self.tickers@, k as int, pred);
            }
            k = k + 1;
        }
        assert(self.tickers@.subrange(0, k as int) =~= self.tickers@);
        Ok(out)
    }

    fn get_all_ticker_for_asset(&mut self, asset_id: usize) -> (r: Result<Vec<Ticker>, DataError>)
        ensures
            r is Ok && r->Ok_0@ == tickers_of_asset(old(self).stored_tickers(), asset_id),
            final(self).same_as(old(self)),
    {
        Ok(self.tickers_for_asset(asset_id))
    }

    fn update_ticker(&mut self, ticker: &Ticker) -> (r: Result<(), DataError>)
        ensures
            ticker.id is None ==> r is Err && r->Err_0 is NotFound,
            r is Ok <==> ticker.id is Some && exists|k: int|
                0 <= k < old(self).stored_tickers().len() && #[trigger] old(self).stored_tickers()[k].spec_id() == ticker.spec_id(),
            r is Ok ==> exists|k: int|
                0 <= k < old(self).stored_tickers().len() && old(self).stored_tickers()[k].spec_id() == ticker.spec_id()
                    && final(self).stored_tickers() == old(self).stored_tickers().update(k, *ticker),
            r is Err ==> r->Err_0 is NotFound && final(self).same_as(old(self)),
            old(self).wf() ==> final(self).wf(),
            final(self).keeps_all_but_tickers(old(self)),
            final(self).next_id() == old(self).next_id(),
    {
        let ghost before = self.tickers@;
        let r = update_record(&mut self.tickers, ticker);
        proof {
            assert(before == old(self).stored_tickers());
            assert(self.tickers@ == final(self).stored_tickers());
            if r is Ok {
                let k = choose|k: int|
                    0 <= k < before.len() && before[k].spec_id() == ticker.spec_id() && self.tickers@ == before.update(k, *ticker);
                if ids_valid(before, self.next_id as nat) {
                    lemma_update_keeps_ids(before, k, *ticker, self.next_id as nat);
                }
            }
        }
        r
    }

    fn delete_ticker(&mut self, id: usize) -> (r: Result<(), DataError>)
        ensures
            r is Ok,
            (forall|k: int| 0 <= k < old(self).stored_tickers().len() ==> #[trigger] old(self).stored_tickers()[k].spec_id() != Some(id))
                ==> final(self).same_as(old(self)),
            (exists|k: int| 0 <= k < old(self).stored_tickers().len() && #[trigger] old(self).stored_tickers()[k].spec_id() == Some(id))
                ==> exists|k: int| 0 <= k < old(self).stored_tickers().len() && old(self).stored_tickers()[k].spec_id() == Some(id)
                    && final(self).stored_tickers() == old(self).stored_tickers().remove(k),
            old(self).wf() ==> final(self).wf(),
            final(self).keeps_all_but_tickers(old(self)),
            final(self).next_id() == old(self).next_id(),
    {
        let ghost before = self.tickers@;
        delete_record(&mut self.tickers, id);
        proof {
            if self.tickers@ != before && ids_valid(before, self.next_id as nat) {
                let k = choose|k: int| 0 <= k < before.len() && before[k].spec_id() == Some(id) && self.tickers@ == before.remove(k);
                lemma_remove_keeps_ids(before, k, self.next_id as nat);
            }
        }
        Ok(())
    }

    fn insert_quote(&mut self, quote: &Quote) -> (r: Result<usize, DataError>)
        ensures
            r is Ok <==> old(self).next_id() < usize::MAX && has_record(old(self).stored_tickers(), quote.ticker),
            old(self).wf() && r is Ok ==> forall|k: int|
                0 <= k < old(self).stored_quotes().len() ==> #[trigger] old(self).stored_quotes()[k].spec_id() != Some(r->Ok_0),
            r is Ok ==> r->Ok_0 == old(self).next_id() && exists|p: int|
                0 <= p <= old(self).stored_quotes().len() && final(self).stored_quotes()
                    == old(self).stored_quotes().insert(p, quote.spec_with_id(r->Ok_0)),
            r is Err ==> r->Err_0 is InsertFailed && final(self).same_as(old(self)),
            old(self).wf() ==> final(self).wf(),
            final(self).keeps_all_but_quotes(old(self)),
            r is Ok ==> final(self).next_id() == old(self).next_id() + 1,
    {
        if crate::table::position_of(&self.tickers, quote.ticker).is_none() {
            return Err(DataError::InsertFailed(String::from_str("no such parent record")));
        }
        let id = match self.take_id() {
            Ok(id) => id,
            Err(e) => return Err(e),
        };
        let ghost before = self.quotes@;
        let q = quote.with_id(id);
        insert_by_time(&mut self.quotes, q);
        proof {
            assert(before == old(self).stored_quotes());
            assert(self.quotes@ == final(self).stored_quotes());
            let p = choose|p: int| 0 <= p <= before.len() && self.quotes@ == before.insert(p, q);
            assert(0 <= p <= old(self).stored_quotes().len() && final(self).stored_quotes()
                == old(self).stored_quotes().insert(p, quote.spec_with_id(id)));
            let after = self.quotes@;
            if ids_valid(before, id as nat) {
                assert forall|k: int| 0 <= k < after.len() implies (#[trigger] after[k].spec_id()) == (if k < p {
                    before[k].spec_id()
                } else if k == p {
                    Some(id)
                } else {
                    before[k - 1].spec_id()
                }) by {}
                assert(ids_valid(after, id as nat + 1));
            }
        }
        Ok(id)
    }

    fn get_all_quotes_for_ticker(&mut self, ticker_id: usize) -> (r: Result<Vec<Quote>, DataError>)
        ensures
            r is Ok && r->Ok_0@ == quotes_of_ticker(old(self).stored_quotes(), ticker_id),
            old(self).wf() ==> by_time(r->Ok_0@),
            final(self).same_as(old(self)),
    {
        Ok(self.quotes_for_ticker(ticker_id))
    }

    fn get_last_quote_before(&mut self, asset_name: &str, time: Instant) -> (r: Result<(Quote, Currency), DataError>)
        ensures
            match asset_id_by_name(old(self).stored_assets(), asset_name@) {
                Some(a) => resolves(old(self).stored_tickers(), old(self).stored_quotes(), a, time, r),
                None => r is Err && r->Err_0 is NotFound,
            },
            final(self).same_as(old(self)),
    {
        let probe = Asset {
            id: None,
            name: String::from_str(asset_name),
            wkn: None,
            isin: None,
            note: None,
        };
        proof {
            lemma_lookup_by_name(self.assets@, probe);
        }
        match find_asset(&self.assets, &probe) {
            Some(asset_id) => self.get_last_quote_before_by_id(asset_id, time),
            None => Err(DataError::NotFound(String::from_str("no asset of this name"))),
        }
    }

    fn get_last_quote_before_by_id(&mut self, asset_id: usize, time: Instant) -> (r: Result<(Quote, Currency), DataError>)
        ensures
            resolves(old(self).stored_tickers(), old(self).stored_quotes(), asset_id, time, r),
            final(self).same_as(old(self)),
    {
        let tickers = self.tickers_for_asset(asset_id);
        let ghost qs = quote_lists(self.quotes@, tickers@);
        let mut quotes: Vec<Vec<Quote>> = Vec::new();
        let mut k: usize = 0;
        while k < tickers.len()
            invariant
                k <= tickers.len(),
                quotes.len() == k,
                qs == quote_lists(self.quotes@, tickers@),
                forall|i: int| 0 <= i < k ==> (#[trigger] quotes@[i])@ == qs[i],
            decreases tickers.len() - k,
        {
            let list = match tickers[k].id {
                Some(ticker_id) => self.quotes_for_ticker(ticker_id),
                None => Vec::new(),
            };
            quotes.push(list);
            k = k + 1;
        }
        assert(lists_view(quotes@) =~= qs);
        resolve_quote(&tickers, &quotes, time)
    }

    fn update_quote(&mut self, quote: &Quote) -> (r: Result<(), DataError>)
        ensures
            quote.id is None ==> r is Err && r->Err_0 is NotFound,
            r is Ok <==> quote.id is Some && exists|k: int|
                0 <= k < old(self).stored_quotes().len() && #[trigger] old(self).stored_quotes()[k].spec_id() == quote.spec_id(),
            r is Ok ==> exists|k: int, p: int|
                0 <= k < old(self).stored_quotes().len() && 0 <= p < old(self).stored_quotes().len()
                    && old(self).stored_quotes()[k].spec_id() == quote.spec_id()
                    && final(self).stored_quotes() == old(self).stored_quotes().remove(k).insert(p, *quote),
            r is Err ==> r->Err_0 is NotFound && final(self).same_as(old(self)),
            old(self).wf() ==> final(self).wf(),
            final(self).keeps_all_but_quotes(old(self)),
            final(self).next_id() == old(self).next_id(),
    {
        let id = match quote.id {
            Some(id) => id,
            None => return Err(DataError::NotFound(String::from_str("not yet stored"))),
        };
        match crate::table::position_of(&self.quotes, id) {
            Some(k) => {
                let ghost before = self.quotes@;
                self.quotes.remove(k);
                let ghost removed = self.quotes@;
                insert_by_time(&mut self.quotes, *quote);
                proof {
                    assert(before == old(self).stored_quotes());
                    assert(self.quotes@ == final(self).stored_quotes());
                    let p = choose|p: int| 0 <= p <= removed.len() && self.quotes@ == removed.insert(p, *quote);
                    assert(before[k as int].spec_id() == quote.spec_id());
                    assert(final(self).stored_quotes() == old(self).stored_quotes().remove(k as int).insert(p, *quote));
                    if ids_valid(before, self.next_id as nat) {
                        lemma_remove_keeps_ids(before, k as int, self.next_id as nat);
                        let after = self.quotes@;
                        assert forall|i: int| 0 <= i < after.len() implies (#[trigger] after[i].spec_id()) == (if i < p {
                            removed[i].spec_id()
                        } else if i == p {
                            Some(id)
                        } else {
                            removed[i - 1].spec_id()
                        }) by {}
                        assert forall|i: int| 0 <= i < removed.len() implies #[trigger] removed[i].spec_id() != Some(id) by {
                            let si = if i < k { i } else { i + 1 };
                            assert(removed[i] == before[si]);
                        }
                        assert(ids_valid(after, self.next_id as nat));
                    }
                    if by_time(before) {
                        assert forall|i: int, j: int| 0 <= i < j < removed.len() implies (#[trigger] removed[i]).time.spec_at_or_before(
                            (#[trigger] removed[j]).time,
                        ) by {
                            let si = if i < k { i } else { i + 1 };
                            let sj = if j < k { j } else { j + 1 };
                            assert(removed[i] == before[si] && removed[j] == before[sj]);
                        }
                    }
                }
                Ok(())
            },
            None => Err(DataError::NotFound(String::from_str("no quote of this id"))),
        }
    }

    fn delete_quote(&mut self, id: usize) -> (r: Result<(), DataError>)
        ensures
            r is Ok,
            (forall|k: int| 0 <= k < old(self).stored_quotes().len() ==> #[trigger] old(self).stored_quotes()[k].spec_id() != Some(id))
                ==> final(self).same_as(old(self)),
            (exists|k: int| 0 <= k < old(self).stored_quotes().len() && #[trigger] old(self).stored_quotes()[k].spec_id() == Some(id))
                ==> exists|k: int| 0 <= k < old(self).stored_quotes().len() && old(self).stored_quotes()[k].spec_id() == Some(id)
                    && final(self).stored_quotes() == old(self).stored_quotes().remove(k),
            old(self).wf() ==> final(self).wf(),
            final(self).keeps_all_but_quotes(old(self)),
            final(self).next_id() == old(self).next_id(),
    {
        let ghost before = self.quotes@;
        delete_record(&mut self.quotes, id);
        proof {
            if self.quotes@ != before {
                let k = choose|k: int| 0 <= k < before.len() && before[k].spec_id() == Some(id) && self.quotes@ == before.remove(k);
                if ids_valid(before, self.next_id as nat) {
                    lemma_remove_keeps_ids(before, k, self.next_id as nat);
                }
                if by_time(before) {
                    let after = self.quotes@;
                    assert forall|i: int, j: int| 0 <= i < j < after.len() implies (#[trigger] after[i]).time.spec_at_or_before(
                        (#[trigger] after[j]).time,
                    ) by {
                        let si = if i < k { i } else { i + 1 };
                        let sj = if j < k { j } else { j + 1 };
                        assert(after[i] == before[si] && after[j] == before[sj]);
                    }
                }
            }
        }
        Ok(())
    }

    fn get_rounding_digits(&mut self, currency: Currency) -> (r: i32)
        ensures
            r == rounding_of(old(self).rounding_entries(), currency.code@),
            final(self).same_as(old(self)),
    {
        let found = match self.first_rounding_entry(&currency) {
            Some(k) => Some(self.rounding[k].digits),
            None => None,
        };
        digits_or_default(found)
    }

    fn set_rounding_digits(&mut self, currency: Currency, digits: i32) -> (r: Result<(), DataError>)
        ensures
            r is Ok,
            final(self).rounding_entries() == upsert_rounding(old(self).rounding_entries(), currency, digits),
            final(self).stored_assets() == old(self).stored_assets(),
            final(self).stored_tickers() == old(self).stored_tickers(),
            final(self).stored_quotes() == old(self).stored_quotes(),
            final(self).stored_transactions() == old(self).stored_transactions(),
            final(self).next_id() == old(self).next_id(),
            old(self).wf() ==> final(self).wf(),
    {
        let ghost before = self.rounding@;
        let ghost code = currency.code@;
        match self.first_rounding_entry(&currency) {
            Some(k) => {
                self.rounding.set(k, RoundingEntry { currency, digits });
                assert forall|j: int| 0 <= j < before.len() implies (#[trigger] self.rounding@[j]).currency.code@
                    == before[j].currency.code@ by {}
            },
            None => {
                self.rounding.push(RoundingEntry { currency, digits });
                assert forall|j: int| 0 <= j < before.len() implies (#[trigger] before[j]).currency.code@ != code by {
                    if before[j].currency.code@ == code {
                        lemma_first_entry_exists(before, code, j);
                    }
                }
                assert forall|j: int| 0 <= j < before.len() implies (#[trigger] self.rounding@[j]) == before[j] by {}
            },
        }
        Ok(())
    }
}

impl MemoryDB {
    /// The tickers of the asset of id `asset_id`, in stored order.
    fn tickers_for_asset(&self, asset_id: usize) -> (r: Vec<Ticker>)
        ensures
            r@ == tickers_of_asset(self.tickers@, asset_id),
    {
        let ghost pred = |t: Ticker| t.asset == asset_id;
        let mut out: Vec<Ticker> = Vec::new();
        let mut k: usize = 0;
        while k < self.tickers.len()
            invariant
                k <= self.tickers@.len(),
                pred == (|t: Ticker| t.asset == asset_id),
                out@ == self.tickers@.subrange(0, k as int).filter(pred),
            decreases self.tickers.len() - k,
        {
            if self.tickers[k].asset == asset_id {
                out.push(self.tickers[k].copy());
            }
            proof {
                lemma_filter_step(self.tickers@, k as int, pred);
            }
            k = k + 1;
        }
        assert(self.tickers@.subrange(0, k as int) =~= self.tickers@);
        out
    }


    /// The quotes of the ticker of id `ticker_id`, in stored order.
    fn quotes_for_ticker(&self, ticker_id: usize) -> (r: Vec<Quote>)
        ensures
            r@ == quotes_of_ticker(self.quotes@, ticker_id),
            by_time(self.quotes@) ==> by_time(r@),
    {
        let ghost pred = |q: Quote| q.ticker == ticker_id;
        let mut out: Vec<Quote> = Vec::new();
        let mut k: usize = 0;
        while k < self.quotes.len()
            invariant
                k <= self.quotes@.len(),
                pred == (|q: Quote| q.ticker == ticker_id),
                out@ == self.quotes@.subrange(0, k as int).filter(pred),
                by_time(self.quotes@) ==> by_time(out@),
                by_time(self.quotes@) ==> forall|i: int, j: int|
                    0 <= i < out@.len() && k <= j < self.quotes@.len() ==> (#[trigger] out@[i]).time.spec_at_or_before(
                        (#[trigger] self.quotes@[j]).time,
                    ),
            decreases self.quotes.len() - k,
        {
            if self.quotes[k].ticker == ticker_id {
                out.push(self.quotes[k]);
            }
            proof {
                lemma_filter_step(self.quotes@, k as int, pred);
            }
            k = k + 1;
        }
        assert(self.quotes@.subrange(0, k as int) =~= self.quotes@);
        out
    }


    /// The index of the first rounding entry of `currency`'s code.
    fn first_rounding_entry(&self, currency: &Currency) -> (r: Option<usize>)
        ensures
            r is None <==> !exists|k: int| first_entry_at(self.rounding@, currency.code@, k),
            r is Some ==> r->0 == choose|k: int| first_entry_at(self.rounding@, currency.code@, k),
            r is Some ==> first_entry_at(self.rounding@, currency.code@, r->0 as int),
    {
        let mut k: usize = 0;
        while k < self.rounding.len()
            invariant
                k <= self.rounding@.len(),
                forall|j: int| 0 <= j < k ==> (#[trigger] self.rounding@[j]).currency.code@ != currency.code@,
            decreases self.rounding.len() - k,
        {
            if self.rounding[k].currency.code == currency.code {
                assert(first_entry_at(self.rounding@, currency.code@, k as int));
                let ghost c = choose|c: int| first_entry_at(self.rounding@, currency.code@, c);
                assert(c == k) by {
                    if c < k {
                        assert(self.rounding@[c].currency.code@ != currency.code@);
                    } else if c > k {
                        assert(self.rounding@[k as int].currency.code@ != currency.code@);
                    }
                }
                return Some(k);
            }
            k = k + 1;
        }
        None
    }
}

impl TransactionHandler for MemoryDB {
    fn insert_transaction(&mut self, transaction: &Transaction) -> (r: Result<usize, DataError>)
        ensures
            r is Ok <==> old(self).next_id() < usize::MAX,
            old(self).wf() && r is Ok ==> forall|k: int|
                0 <= k < old(self).stored_transactions().len() ==> #[trigger] old(self).stored_transactions()[k].spec_id() != Some(r->Ok_0),
            r is Ok ==> r->Ok_0 == old(self).next_id() && final(self).stored_transactions()
                == old(self).stored_transactions().push(transaction.spec_with_id(r->Ok_0)),
            r is Err ==> r->Err_0 is InsertFailed && final(self).same_as(old(self)),
            old(self).wf() ==> final(self).wf(),
            final(self).keeps_all_but_transactions(old(self)),
            r is Ok ==> final(self).next_id() == old(self).next_id() + 1,
    {
        let ghost next = self.next_id as nat;
        let id = match self.take_id() {
            Ok(id) => id,
            Err(e) => return Err(e),
        };
        push_with_id(&mut self.transactions, transaction, id, Ghost(next));
        Ok(id)
    }

    fn get_transaction_by_id(&mut self, id: usize) -> (r: Result<Transaction, DataError>)
        ensures
            r is Ok <==> exists|k: int| 0 <= k < old(self).stored_transactions().len() && #[trigger] old(self).stored_transactions()[k].spec_id() == Some(id),
            r is Ok ==> r->Ok_0.id == Some(id) && old(self).stored_transactions().contains(r->Ok_0),
            old(self).wf() && r is Ok ==> forall|k: int|
                0 <= k < old(self).stored_transactions().len() && #[trigger] old(self).stored_transactions()[k].spec_id() == Some(id)
                    ==> r->Ok_0 == old(self).stored_transactions()[k],
            r is Err ==> r->Err_0 is NotFound,
            final(self).same_as(old(self)),
    {
        get_record(&self.transactions, id)
    }

    fn get_all_transactions(&mut self) -> (r: Result<Vec<Transaction>, DataError>)
        ensures
            r is Ok && r->Ok_0@ == old(self).stored_transactions(),
            final(self).same_as(old(self)),
    {
        Ok(copy_all(&self.transactions))
    }

    fn update_transaction(&mut self, transaction: &Transaction) -> (r: Result<(), DataError>)
        ensures
            transaction.id is None ==> r is Err && r->Err_0 is NotFound,
            r is Ok <==> transaction.id is Some && exists|k: int|
                0 <= k < old(self).stored_transactions().len() && #[trigger] old(self).stored_transactions()[k].spec_id() == transaction.spec_id(),
            r is Ok ==> exists|k: int|
                0 <= k < old(self).stored_transactions().len() && old(self).stored_transactions()[k].spec_id() == transaction.spec_id()
                    && final(self).stored_transactions() == old(self).stored_transactions().update(k, *transaction),
            r is Err ==> r->Err_0 is NotFound && final(self).same_as(old(self)),
            old(self).wf() ==> final(self).wf(),
            final(self).keeps_all_but_transactions(old(self)),
            final(self).next_id() == old(self).next_id(),
    {
        let ghost before = self.transactions@;
        let r = update_record(&mut self.transactions, transaction);
        proof {
            assert(before == old(self).stored_transactions());
            assert(self.transactions@ == final(self).stored_transactions());
            if r is Ok {
                let k = choose|k: int|
                    0 <= k < before.len() && before[k].spec_id() == transaction.spec_id() && self.transactions@ == before.update(k, *transaction);
                if ids_valid(before, self.next_id as nat) {
                    lemma_update_keeps_ids(before, k, *transaction, self.next_id as nat);
                }
            }
        }
        r
    }

    fn delete_transaction(&mut self, id: usize) -> (r: Result<(), DataError>)
        ensures
            r is Ok,
            (forall|k: int| 0 <= k < old(self).stored_transactions().len() ==> #[trigger] old(self).stored_transactions()[k].spec_id() != Some(id))
                ==> final(self).same_as(old(self)),
            (exists|k: int| 0 <= k < old(self).stored_transactions().len() && #[trigger] old(self).stored_transactions()[k].spec_id() == Some(id))
                ==> exists|k: int| 0 <= k < old(self).stored_transactions().len() && old(self).stored_transactions()[k].spec_id() == Some(id)
                    && final(self).stored_transactions() == old(self).stored_transactions().remove(k),
            old(self).wf() ==> final(self).wf(),
            final(self).keeps_all_but_transactions(old(self)),
            final(self).next_id() == old(self).next_id(),
    {
        let ghost before = self.transactions@;
        delete_record(&mut self.transactions, id);
        proof {
            if self.transactions@ != before && ids_valid(before, self.next_id as nat) {
                let k = choose|k: int| 0 <= k < before.len() && before[k].spec_id() == Some(id) && self.transactions@ == before.remove(k);
                lemma_remove_keeps_ids(before, k, self.next_id as nat);
            }
        }
        Ok(())
    }
}

proof fn lemma_first_named_exists(s: Seq<Ticker>, name: Seq<char>, k: int)
    requires
        0 <= k < s.len(),
        s[k].name@ == name,
    ensures
        exists|j: int| first_named_at(s, name, j),
    decreases k,
{
    if exists|i: int| 0 <= i < k && (#[trigger] s[i]).name@ == name {
        let i = choose|i: int| 0 <= i < k && (#[trigger] s[i]).name@ == name;
        lemma_first_named_exists(s, name, i);
    } else {
        assert(first_named_at(s, name, k));
    }
}

proof fn lemma_first_entry_exists(s: Seq<RoundingEntry>, code: Seq<char>, k: int)
    requires
        0 <= k < s.len(),
        s[k].currency.code@ == code,
    ensures
        exists|j: int| first_entry_at(s, code, j),
    decreases k,
{
    if exists|i: int| 0 <= i < k && (#[trigger] s[i]).currency.code@ == code {
        let i = choose|i: int| 0 <= i < k && (#[trigger] s[i]).currency.code@ == code;
        lemma_first_entry_exists(s, code, i);
    } else {
        assert(first_entry_at(s, code, k));
    }
}

/// Creating a ticker only where none of its name is stored, twice with the
/// same name: where the first call gave `id`, the second finds that same id
/// (and so stores nothing); where no ticker of that name was stored before,
/// exactly one is stored after.
pub proof fn lemma_insert_if_new_twice(
    before: Seq<Ticker>,
    next: nat,
    first: Ticker,
    second: Ticker,
    id: usize,
    after: Seq<Ticker>,
)
    requires
        ids_valid(before, next),
        first.name@ == second.name@,
        ticker_id_of(before, first.name@) is Some ==> ticker_id_of(before, first.name@) == Some(id)
            && after == before,
        ticker_id_of(before, first.name@) is None ==> after == before.push(first.spec_with_id(id)),
    ensures
        ticker_id_of(after, second.name@) == Some(id),
        ticker_id_of(before, first.name@) is None ==> forall|k: int|
            0 <= k < after.len() && (#[trigger] after[k]).name@ == first.name@ ==> k == before.len(),
{
    let name = first.name@;
    if ticker_id_of(before, name) is None {
        assert forall|k: int| 0 <= k < before.len() implies (#[trigger] before[k]).name@ != name by {
            if before[k].name@ == name {
                lemma_first_named_exists(before, name, k);
                let j = choose|j: int| first_named_at(before, name, j);
                assert(before[j].spec_id() is Some);
            }
        }
        let n = before.len() as int;
        assert(after[n].name@ == name);
        assert(first_named_at(after, name, n));
        let c = choose|c: int| first_named_at(after, name, c);
        assert(c == n) by {
            if c < n {
                assert(after[c] == before[c]);
            }
        }
    }
}

/// The digits of a currency that has no entry are 2; after they are set to
/// `digits`, they are `digits`.
pub proof fn lemma_rounding_convention(entries: Seq<RoundingEntry>, currency: Currency, digits: i32)
    ensures
        (forall|k: int| 0 <= k < entries.len() ==> (#[trigger] entries[k]).currency.code@ != currency.code@)
            ==> rounding_of(entries, currency.code@) == 2,
        rounding_of(upsert_rounding(entries, currency, digits), currency.code@) == digits,
{
    let code = currency.code@;
    let after = upsert_rounding(entries, currency, digits);
    if exists|k: int| first_entry_at(entries, code, k) {
        let k = choose|k: int| first_entry_at(entries, code, k);
        assert(first_entry_at(after, code, k));
        let c = choose|c: int| first_entry_at(after, code, c);
        assert(c == k) by {
            if c < k {
                assert(after[c] == entries[c]);
            } else if c > k {
                assert(after[k].currency.code@ == code);
            }
        }
    } else {
        let n = entries.len() as int;
        assert forall|j: int| 0 <= j < n implies (#[trigger] after[j]).currency.code@ != code by {
            assert(after[j] == entries[j]);
            if entries[j].currency.code@ == code {
                lemma_first_entry_exists(entries, code, j);
            }
        }
        assert(first_entry_at(after, code, n));
        let c = choose|c: int| first_entry_at(after, code, c);
        assert(c == n);
    }
}

/// Where no stored quote of a ticker of the asset is at or before `time`,
/// the quote of the asset at `time` is not found.
pub proof fn lemma_no_quote_not_found(
    tickers: Seq<Ticker>,
    quotes: Seq<Quote>,
    asset_id: usize,
    time: Instant,
    r: Result<(Quote, Currency), DataError>,
)
    requires
        resolves(tickers, quotes, asset_id, time, r),
        forall|a: int, b: int|
            0 <= a < tickers.len() && 0 <= b < quotes.len() && (#[trigger] tickers[a]).asset == asset_id
                && tickers[a].id == Some((#[trigger] quotes[b]).ticker) ==> !quotes[b].time.spec_at_or_before(time),
    ensures
        r is Err && r->Err_0 is NotFound,
{
    let ts = tickers_of_asset(tickers, asset_id);
    let qs = quote_lists(quotes, ts);
    if let Ok((q, c)) = r {
        let (i, j) = choose|i: int, j: int| is_pick(ts, qs, time, i, j) && q == qs[i][j] && c == ts[i].currency;
        lemma_filter_within(tickers, |t: Ticker| t.asset == asset_id, i);
        let a = choose|a: int| 0 <= a < tickers.len() && tickers[a] == ts[i];
        let t = ts[i].id->0;
        lemma_filter_within(quotes, |q: Quote| q.ticker == t, j);
        let b = choose|b: int| 0 <= b < quotes.len() && quotes[b] == qs[i][j];
        assert(tickers[a].asset == asset_id && tickers[a].id == Some(quotes[b].ticker));
    }
}

} // verus!
