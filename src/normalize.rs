use crate::decimal::{mean_spec, Decimal};
use crate::types::{AlpacaQuote, KrakenTickerData, KrakenTickerUpdate, Response};
use vstd::prelude::*;

verus! {

/// The price of a quote: the mean of bid and ask when both are positive,
/// else the one that is positive, else none.
pub open spec fn quote_price_spec(bid: Decimal, ask: Decimal) -> Option<Decimal> {
    if bid.is_positive() && ask.is_positive() {
        Some(mean_spec(bid, ask))
    } else if bid.is_positive() {
        Some(bid)
    } else if ask.is_positive() {
        Some(ask)
    } else {
        None
    }
}

/// The event a quote yields, if it is publishable.
pub open spec fn quote_event(q: AlpacaQuote) -> Option<Response> {
    match quote_price_spec(q.bid_price, q.ask_price) {
        Some(p) => Some(Response { ticker: q.symbol, price: p, time: q.timestamp }),
        None => None,
    }
}

/// The events a run of quotes yields, in the order of the quotes.
pub open spec fn quote_events(qs: Seq<AlpacaQuote>) -> Seq<Response>
    decreases qs.len(),
{
    if qs.len() == 0 {
        Seq::empty()
    } else {
        let rest = quote_events(qs.drop_last());
        match quote_event(qs.last()) {
            Some(e) => rest.push(e),
            None => rest,
        }
    }
}

/// The event a ticker snapshot yields at clock reading `now`, if its last
/// price is positive.
pub open spec fn ticker_event(d: KrakenTickerData, now: String) -> Option<Response> {
    if d.last.is_positive() {
        Some(Response { ticker: d.symbol, price: d.last, time: now })
    } else {
        None
    }
}

/// The events a run of ticker snapshots yields at clock reading `now`.
pub open spec fn ticker_events(ds: Seq<KrakenTickerData>, now: String) -> Seq<Response>
    decreases ds.len(),
{
    if ds.len() == 0 {
        Seq::empty()
    } else {
        let rest = ticker_events(ds.drop_last(), now);
        match ticker_event(ds.last(), now) {
            Some(e) => rest.push(e),
            None => rest,
        }
    }
}

/// Quotes that are all publishable yield one event each, in their order.
pub proof fn lemma_quote_events_in_order(qs: Seq<AlpacaQuote>)
    requires
        forall|i: int|
            0 <= i < qs.len() ==> (#[trigger] qs[i]).bid_price.is_positive()
                || qs[i].ask_price.is_positive(),
    ensures
        quote_events(qs).len() == qs.len(),
        forall|i: int| 0 <= i < qs.len() ==> Some(#[trigger] quote_events(qs)[i]) == quote_event(qs[i]),
    decreases qs.len(),
{
    if qs.len() > 0 {
        lemma_quote_events_in_order(qs.drop_last());
        assert(qs.last() == qs[qs.len() - 1]);
        assert forall|i: int| 0 <= i < qs.len() implies Some(#[trigger] quote_events(qs)[i])
            == quote_event(qs[i]) by {
            if i < qs.len() - 1 {
                assert(qs.drop_last()[i] == qs[i]);
            }
        }
    }
}

/// Ticker snapshots with positive last prices yield one event each, in
/// their order.
pub proof fn lemma_ticker_events_in_order(ds: Seq<KrakenTickerData>, now: String)
    requires
        forall|i: int| 0 <= i < ds.len() ==> (#[trigger] ds[i]).last.is_positive(),
    ensures
        ticker_events(ds, now).len() == ds.len(),
        forall|i: int|
            0 <= i < ds.len() ==> Some(#[trigger] ticker_events(ds, now)[i]) == ticker_event(
                ds[i],
                now,
            ),
    decreases ds.len(),
{
    if ds.len() > 0 {
        lemma_ticker_events_in_order(ds.drop_last(), now);
        assert(ds.last() == ds[ds.len() - 1]);
        assert forall|i: int| 0 <= i < ds.len() implies Some(#[trigger] ticker_events(ds, now)[i])
            == ticker_event(ds[i], now) by {
            if i < ds.len() - 1 {
                assert(ds.drop_last()[i] == ds[i]);
            }
        }
    }
}

/// The price of a quote under the quote-style policy.
pub fn quote_price(bid: Decimal, ask: Decimal) -> (r: Option<Decimal>)
    requires
        bid.is_bounded(),
        ask.is_bounded(),
    ensures
        r == quote_price_spec(bid, ask),
        r is Some <==> (bid.is_positive() || ask.is_positive()),
        bid.is_positive() && ask.is_positive() ==> r->0.is_mean_of(bid, ask),
        bid.is_positive() && !ask.is_positive() ==> r == Some(bid),
        !bid.is_positive() && ask.is_positive() ==> r == Some(ask),
{
    if bid.positive() && ask.positive() {
        Some(Decimal::mean(bid, ask))
    } else if bid.positive() {
        Some(bid)
    } else if ask.positive() {
        Some(ask)
    } else {
        None
    }
}

/// Turns one quote into a canonical event; `None` when neither bid nor ask
/// is positive, so that no zero or negative price is ever published.
pub fn normalize_quote(q: &AlpacaQuote) -> (r: Option<Response>)
    requires
        q.wf(),
    ensures
        r == quote_event(*q),
        r is Some <==> (q.bid_price.is_positive() || q.ask_price.is_positive()),
        r matches Some(e) ==> e.ticker == q.symbol && e.time == q.timestamp
            && e.price.is_positive(),
        q.bid_price.is_positive() && q.ask_price.is_positive() ==> r->0.price.is_mean_of(
            q.bid_price,
            q.ask_price,
        ),
        q.bid_price.is_positive() && !q.ask_price.is_positive() ==> r->0.price == q.bid_price,
        !q.bid_price.is_positive() && q.ask_price.is_positive() ==> r->0.price == q.ask_price,
{
    match quote_price(q.bid_price, q.ask_price) {
        Some(p) => {
            proof {
                if q.bid_price.is_positive() && q.ask_price.is_positive() {
                    lemma_mean_positive(q.bid_price, q.ask_price);
                }
            }
            Some(Response { ticker: q.symbol.clone(), price: p, time: q.timestamp.clone() })
        },
        None => None,
    }
}

proof fn lemma_mean_positive(a: Decimal, b: Decimal)
    requires
        a.is_positive(),
        b.is_positive(),
        a.is_bounded(),
        b.is_bounded(),
    ensures
        mean_spec(a, b).is_positive(),
{
    let s = if a.scale >= b.scale {
        a.scale
    } else {
        b.scale
    };
    crate::decimal::lemma_pow10_pos((s - a.scale) as nat);
    crate::decimal::lemma_pow10_pos((s - b.scale) as nat);
    crate::decimal::lemma_pow10_mono((s - a.scale) as nat, 18);
    crate::decimal::lemma_pow10_mono((s - b.scale) as nat, 18);
    crate::decimal::lemma_pow10_value_18();
    let x = a.mantissa * pow10_of(s - a.scale) + b.mantissa * pow10_of(s - b.scale);
    assert(0 < x <= 2_000_000_000_000_000_000_000_000_000_000_000_000) by (nonlinear_arith)
        requires
            x == a.mantissa * pow10_of(s - a.scale) + b.mantissa * pow10_of(s - b.scale),
            0 < a.mantissa < 1_000_000_000_000_000_000,
            0 < b.mantissa < 1_000_000_000_000_000_000,
            0 < pow10_of(s - a.scale) <= 1_000_000_000_000_000_000,
            0 < pow10_of(s - b.scale) <= 1_000_000_000_000_000_000,
    ;
}

spec fn pow10_of(k: int) -> int {
    crate::decimal::pow10(k as nat)
}

/// Turns a run of quotes into events, skipping the unpublishable ones and
/// keeping the order of the rest.
pub fn normalize_quotes(quotes: &Vec<AlpacaQuote>) -> (r: Vec<Response>)
    requires
        forall|i: int| 0 <= i < quotes@.len() ==> (#[trigger] quotes@[i]).wf(),
    ensures
        r@ == quote_events(quotes@),
{
    let mut out: Vec<Response> = Vec::new();
    let mut i: usize = 0;
    while i < quotes.len()
        invariant
            i <= quotes@.len(),
            forall|j: int| 0 <= j < quotes@.len() ==> (#[trigger] quotes@[j]).wf(),
            out@ == quote_events(quotes@.take(i as int)),
        decreases quotes@.len() - i,
    {
        proof {
            assert(quotes@.take(i + 1).drop_last() =~= quotes@.take(i as int));
        }
        match normalize_quote(&quotes[i]) {
            Some(e) => out.push(e),
            None => {},
        }
        i = i + 1;
    }
    proof {
        assert(quotes@.take(quotes@.len() as int) =~= quotes@);
    }
    out
}

/// Turns one ticker snapshot into a canonical event stamped `now`; `None`
/// when its last price is not positive.
pub fn normalize_ticker(d: &KrakenTickerData, now: &String) -> (r: Option<Response>)
    ensures
        r == ticker_event(*d, *now),
        r is Some <==> d.last.is_positive(),
        r matches Some(e) ==> e.ticker == d.symbol && e.price == d.last && e.time == *now,
{
    if d.last.positive() {
        Some(Response { ticker: d.symbol.clone(), price: d.last, time: now.clone() })
    } else {
        None
    }
}

/// Turns every snapshot of a ticker message into events stamped `now`,
/// in the message's order.
pub fn normalize_ticker_update(u: &KrakenTickerUpdate, now: &String) -> (r: Vec<Response>)
    ensures
        r@ == ticker_events(u.data@, *now),
{
    let mut out: Vec<Response> = Vec::new();
    let mut i: usize = 0;
    while i < u.data.len()
        invariant
            i <= u.data@.len(),
            out@ == ticker_events(u.data@.take(i as int), *now),
        decreases u.data@.len() - i,
    {
        proof {
            assert(u.data@.take(i + 1).drop_last() =~= u.data@.take(i as int));
        }
        match normalize_ticker(&u.data[i], now) {
            Some(e) => out.push(e),
            None => {},
        }
        i = i + 1;
    }
    proof {
        assert(u.data@.take(u.data@.len() as int) =~= u.data@);
    }
    out
}

/// Relies on chrono's `Utc::now` and `DateTime::to_rfc3339`: the current
/// wall-clock instant as an RFC 3339 string. Nothing is promised of its value.
#[verifier::external_body]
fn clock_now() -> (r: String) {
    chrono::Utc::now().to_rfc3339()
}

/// Turns a ticker message into events stamped with the clock reading taken
/// now, once for the whole message.
pub fn normalize_ticker_update_now(u: &KrakenTickerUpdate) -> (r: Vec<Response>)
    ensures
        exists|now: String| r@ == ticker_events(u.data@, now),
{
    let now = clock_now();
    let r = normalize_ticker_update(u, &now);
    assert(r@ == ticker_events(u.data@, now));
    r
}

} // verus!
