//! The quote that gives an asset's price at an instant: the latest one at or
//! before that instant over all the asset's tickers, the ticker of higher
//! priority winning between quotes of the same time.

use vstd::prelude::*;
use crate::model::{Currency, DataError, Quote, Ticker};
use crate::time::Instant;

verus! {

/// A quote of time `ta` from a ticker of priority `pa` is preferred to one of
/// time `tb` from a ticker of priority `pb`: it is later, or of the same time
/// and of a higher priority.
pub open spec fn beats(ta: Instant, pa: i32, tb: Instant, pb: i32) -> bool {
    !ta.spec_at_or_before(tb) || (ta == tb && pa > pb)
}

/// `quotes[i][j]` exists (a quote of ticker `tickers[i]`) and is at or before
/// the cutoff.
pub open spec fn eligible(quotes: Seq<Seq<Quote>>, cutoff: Instant, i: int, j: int) -> bool {
    0 <= i < quotes.len() && 0 <= j < quotes[i].len() && quotes[i][j].time.spec_at_or_before(
        cutoff,
    )
}

/// Quote `(i, j)` is preferred to quote `(k, l)`.
pub open spec fn beats_at(tickers: Seq<Ticker>, quotes: Seq<Seq<Quote>>, i: int, j: int, k: int, l: int) -> bool {
    beats(quotes[i][j].time, tickers[i].priority, quotes[k][l].time, tickers[k].priority)
}

/// The quotes of each ticker, as sequences.
pub open spec fn lists_view(v: Seq<Vec<Quote>>) -> Seq<Seq<Quote>> {
    v.map_values(|q: Vec<Quote>| q@)
}

/// `(k, l)` comes before `(i, j)` in the order of the tickers and of their quotes.
pub open spec fn listed_before(k: int, l: int, i: int, j: int) -> bool {
    k < i || (k == i && l < j)
}

/// Some quote is at or before the cutoff.
pub open spec fn has_eligible(quotes: Seq<Seq<Quote>>, cutoff: Instant) -> bool {
    exists|i: int, j: int| #[trigger] eligible(quotes, cutoff, i, j)
}

/// `(i, j)` is the quote to use: eligible, preferred to no other eligible
/// quote, and preferred to every eligible quote listed before it.
pub open spec fn is_pick(tickers: Seq<Ticker>, quotes: Seq<Seq<Quote>>, cutoff: Instant, i: int, j: int) -> bool {
    &&& eligible(quotes, cutoff, i, j)
    &&& forall|k: int, l: int| #[trigger]
        eligible(quotes, cutoff, k, l) ==> !beats_at(tickers, quotes, k, l, i, j)
    &&& forall|k: int, l: int|
        #![trigger eligible(quotes, cutoff, k, l), listed_before(k, l, i, j)]
        eligible(quotes, cutoff, k, l) && listed_before(k, l, i, j) ==> beats_at(tickers, quotes, i, j, k, l)
}

/// The position of a quote: `quote`-th quote of the `ticker`-th ticker.
#[derive(Clone, Copy, Debug, PartialEq, Eq)]
pub struct QuoteIndex {
    pub ticker: usize,
    pub quote: usize,
}

/// `b` is the pick among the quotes listed before `(i, j)`.
pub open spec fn pick_before(
    tickers: Seq<Ticker>,
    quotes: Seq<Seq<Quote>>,
    cutoff: Instant,
    b: QuoteIndex,
    i: int,
    j: int,
) -> bool {
    &&& eligible(quotes, cutoff, b.ticker as int, b.quote as int)
    &&& listed_before(b.ticker as int, b.quote as int, i, j)
    &&& forall|k: int, l: int| #[trigger]
        eligible(quotes, cutoff, k, l) && listed_before(k, l, i, j) ==> !beats_at(
            tickers,
            quotes,
            k,
            l,
            b.ticker as int,
            b.quote as int,
        )
    &&& forall|k: int, l: int| #[trigger]
        eligible(quotes, cutoff, k, l) && listed_before(k, l, b.ticker as int, b.quote as int)
            ==> beats_at(tickers, quotes, b.ticker as int, b.quote as int, k, l)
}

/// No quote listed before `(i, j)` is eligible.
pub open spec fn none_before(quotes: Seq<Seq<Quote>>, cutoff: Instant, i: int, j: int) -> bool {
    forall|k: int, l: int| #[trigger] eligible(quotes, cutoff, k, l) ==> !listed_before(k, l, i, j)
}

/// Finds the quote to use among `quotes[i]`, the quotes of `tickers[i]`.
pub fn pick_latest(tickers: &Vec<Ticker>, quotes: &Vec<Vec<Quote>>, cutoff: Instant) -> (r: Option<QuoteIndex>)
    requires
        tickers.len() == quotes.len(),
    ensures
        r is None <==> !has_eligible(lists_view(quotes@), cutoff),
        r is Some ==> is_pick(tickers@, lists_view(quotes@), cutoff, r->0.ticker as int, r->0.quote as int),
{
    let ghost qv = lists_view(quotes@);
    let mut best: Option<QuoteIndex> = None;
    let mut i: usize = 0;
    while i < quotes.len()
        invariant
            i <= quotes.len(),
            tickers.len() == quotes.len(),
            qv == lists_view(quotes@),
            best is None ==> none_before(qv, cutoff, i as int, 0),
            best is Some ==> pick_before(tickers@, qv, cutoff, best->0, i as int, 0),
        decreases quotes.len() - i,
    {
        let qs = &quotes[i];
        let mut j: usize = 0;
        while j < qs.len()
            invariant
                i < quotes.len(),
                j <= qs.len(),
                *qs == quotes@[i as int],
                tickers.len() == quotes.len(),
                qv == lists_view(quotes@),
                qs@ == qv[i as int],
                best is None ==> none_before(qv, cutoff, i as int, j as int),
                best is Some ==> pick_before(tickers@, qv, cutoff, best->0, i as int, j as int),
            decreases qs.len() - j,
        {
            let q = &qs[j];
            if q.time.at_or_before(&cutoff) {
                assert(eligible(qv, cutoff, i as int, j as int));
                match best {
                    None => {
                        best = Some(QuoteIndex { ticker: i, quote: j });
                    },
                    Some(p) => {
                        let b = &quotes[p.ticker][p.quote];
                        let later = !q.time.at_or_before(&b.time);
                        let same_time = q.time.secs == b.time.secs && q.time.nanos == b.time.nanos;
                        if later || (same_time && tickers[i].priority > tickers[p.ticker].priority) {
                            assert(beats_at(tickers@, qv, i as int, j as int, p.ticker as int, p.quote as int));
                            best = Some(QuoteIndex { ticker: i, quote: j });
                        } else {
                            assert(!beats_at(tickers@, qv, i as int, j as int, p.ticker as int, p.quote as int));
                        }
                    },
                }
            }
            j = j + 1;
        }
        assert forall|k: int, l: int| #[trigger] eligible(qv, cutoff, k, l) && listed_before(k, l, i + 1, 0)
            implies listed_before(k, l, i as int, j as int) by {}
        i = i + 1;
    }
    best
}

/// The quote to use among `quotes[i]`, the quotes of `tickers[i]`, with the
/// currency of its ticker; `NotFound` where no quote is at or before the
/// cutoff.
pub fn resolve_quote(tickers: &Vec<Ticker>, quotes: &Vec<Vec<Quote>>, cutoff: Instant) -> (r: Result<(Quote, Currency), DataError>)
    requires
        tickers.len() == quotes.len(),
    ensures
        match r {
            Ok((q, c)) => exists|i: int, j: int|
                is_pick(tickers@, lists_view(quotes@), cutoff, i, j) && q == lists_view(quotes@)[i][j] && c
                    == tickers@[i].currency,
            Err(e) => e is NotFound && !has_eligible(lists_view(quotes@), cutoff),
        },
{
    match pick_latest(tickers, quotes, cutoff) {
        Some(p) => {
            let r = Ok((quotes[p.ticker][p.quote], tickers[p.ticker].currency.copy()));
            assert(is_pick(tickers@, lists_view(quotes@), cutoff, p.ticker as int, p.quote as int));
            r
        },
        None => Err(DataError::NotFound(String::from_str("no quote at or before this time"))),
    }
}

} // verus!
