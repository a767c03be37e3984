use crate::decimal::{parse_decimal, parse_spec, Decimal};
use vstd::prelude::*;

verus! {

/// One bid/ask quote as the quote-style venue sends it.
#[derive(Clone, Debug)]
pub struct AlpacaQuote {
    pub symbol: String,
    pub bid_price: Decimal,
    pub ask_price: Decimal,
    pub timestamp: String,
}

impl AlpacaQuote {
    /// A quote from its fields, the two prices given as decimal text;
    /// `None` when either price is not plain decimal notation within range.
    pub fn from_text(symbol: String, bid: &str, ask: &str, timestamp: String) -> (r: Option<
        AlpacaQuote,
    >)
        ensures
            r is Some <==> (parse_spec(bid@) is Some && parse_spec(ask@) is Some),
            r matches Some(q) ==> q.wf() && q.symbol == symbol && q.timestamp == timestamp
                && Some(q.bid_price) == parse_spec(bid@) && Some(q.ask_price) == parse_spec(
                ask@,
            ),
    {
        match (parse_decimal(bid), parse_decimal(ask)) {
            (Some(b), Some(a)) => Some(
                AlpacaQuote { symbol, bid_price: b, ask_price: a, timestamp },
            ),
            _ => None,
        }
    }

    /// Both prices lie in the range that a parsed price has.
    pub open spec fn wf(self) -> bool {
        self.bid_price.is_bounded() && self.ask_price.is_bounded()
    }
}

/// The canonical event: one normalized price update.
#[derive(Clone, Debug)]
pub struct Response {
    pub ticker: String,
    pub price: Decimal,
    pub time: String,
}

impl Response {
    /// A copy equal to `self` field by field.
    pub fn duplicate(&self) -> (r: Response)
        ensures
            r == *self,
    {
        Response { ticker: self.ticker.clone(), price: self.price, time: self.time.clone() }
    }
}

/// One ticker message of the ticker-style venue.
#[derive(Clone, Debug)]
pub struct KrakenTickerUpdate {
    pub channel: String,
    pub update_type: String,
    pub data: Vec<KrakenTickerData>,
}

/// One instrument's snapshot inside a ticker message.
#[derive(Clone, Debug)]
pub struct KrakenTickerData {
    pub symbol: String,
    pub last: Decimal,
}

impl KrakenTickerData {
    /// A snapshot from its symbol and its last price given as decimal text;
    /// `None` when the price is not plain decimal notation within range.
    pub fn from_text(symbol: String, last: &str) -> (r: Option<KrakenTickerData>)
        ensures
            r is Some <==> parse_spec(last@) is Some,
            r matches Some(d) ==> d.symbol == symbol && Some(d.last) == parse_spec(last@),
    {
        match parse_decimal(last) {
            Some(p) => Some(KrakenTickerData { symbol, last: p }),
            None => None,
        }
    }
}

/// Query of the history surface: which ticker, and how many rows at most.
#[derive(Clone, Debug)]
pub struct HistoryParams {
    pub ticker: String,
    pub limit: Option<i64>,
}

/// Row count used when a history query names none.
pub const DEFAULT_HISTORY_LIMIT: i64 = 100;

impl HistoryParams {
    /// The number of rows the query asks for.
    pub fn effective_limit(&self) -> (r: i64)
        ensures
            r == (match self.limit {
                Some(n) => n,
                None => DEFAULT_HISTORY_LIMIT,
            }),
    {
        match self.limit {
            Some(n) => n,
            None => DEFAULT_HISTORY_LIMIT,
        }
    }
}

} // verus!
