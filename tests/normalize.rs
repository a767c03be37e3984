use pricefeed::decimal::Decimal;
use pricefeed::normalize::{
    normalize_quote, normalize_quotes, normalize_ticker, normalize_ticker_update,
    normalize_ticker_update_now, quote_price,
};
use pricefeed::types::{AlpacaQuote, HistoryParams, KrakenTickerData, KrakenTickerUpdate};

fn dec(mantissa: i128, scale: u32) -> Decimal {
    Decimal { mantissa, scale }
}

fn value(d: Decimal) -> f64 {
    d.mantissa as f64 / 10f64.powi(d.scale as i32)
}

fn quote(sym: &str, bid: &str, ask: &str, t: &str) -> AlpacaQuote {
    AlpacaQuote::from_text(sym.to_string(), bid, ask, t.to_string()).unwrap()
}

#[test]
fn quote_scenario_btc_mid_price() {
    let q = quote("BTC/USD", "100.0", "102.0", "2024-01-01T00:00:00Z");
    let e = normalize_quote(&q).unwrap();
    assert_eq!(e.ticker, "BTC/USD");
    assert_eq!(value(e.price), 101.0);
    assert_eq!(e.time, "2024-01-01T00:00:00Z");
}

#[test]
fn quote_both_positive_is_mean() {
    let p = quote_price(dec(3, 0), dec(4, 0)).unwrap();
    assert_eq!(value(p), 3.5);
}

#[test]
fn quote_only_bid_positive() {
    assert_eq!(quote_price(dec(995, 1), dec(0, 0)), Some(dec(995, 1)));
    assert_eq!(quote_price(dec(995, 1), dec(-1, 0)), Some(dec(995, 1)));
}

#[test]
fn quote_only_ask_positive() {
    assert_eq!(quote_price(dec(0, 0), dec(42, 0)), Some(dec(42, 0)));
}

#[test]
fn quote_neither_positive_is_skipped() {
    assert_eq!(quote_price(dec(0, 0), dec(0, 0)), None);
    let q = quote("ETH/USD", "0", "-1.5", "2024-01-01T00:00:00Z");
    assert!(normalize_quote(&q).is_none());
}

#[test]
fn quote_from_text_rejects_bad_price() {
    let q = AlpacaQuote::from_text("X".to_string(), "1e3", "2", "t".to_string());
    assert!(q.is_none());
}

#[test]
fn quotes_keep_order_and_skip_unpublishable() {
    let qs = vec![
        quote("A", "1", "3", "t1"),
        quote("B", "0", "0", "t2"),
        quote("C", "5", "0", "t3"),
        quote("D", "0", "7.5", "t4"),
    ];
    let es = normalize_quotes(&qs);
    let tickers: Vec<&str> = es.iter().map(|e| e.ticker.as_str()).collect();
    assert_eq!(tickers, vec!["A", "C", "D"]);
    assert_eq!(value(es[0].price), 2.0);
    assert_eq!(es[1].price, dec(5, 0));
    assert_eq!(es[2].price, dec(75, 1));
    assert_eq!(es[2].time, "t4");
}

#[test]
fn ticker_price_is_last_exactly() {
    let d = KrakenTickerData::from_text("XMR/USD".to_string(), "150.25").unwrap();
    let now = "2024-05-05T10:00:00+00:00".to_string();
    let e = normalize_ticker(&d, &now).unwrap();
    assert_eq!(e.ticker, "XMR/USD");
    assert_eq!(e.price, dec(15025, 2));
    assert_eq!(e.time, now);
}

#[test]
fn ticker_non_positive_last_is_skipped() {
    let d = KrakenTickerData::from_text("XMR/USD".to_string(), "0").unwrap();
    assert!(normalize_ticker(&d, &"t".to_string()).is_none());
}

#[test]
fn ticker_update_keeps_order() {
    let u = KrakenTickerUpdate {
        channel: "ticker".to_string(),
        update_type: "update".to_string(),
        data: vec![
            KrakenTickerData::from_text("A".to_string(), "1.5").unwrap(),
            KrakenTickerData::from_text("B".to_string(), "-2").unwrap(),
            KrakenTickerData::from_text("C".to_string(), "3").unwrap(),
        ],
    };
    let es = normalize_ticker_update(&u, &"t0".to_string());
    assert_eq!(es.len(), 2);
    assert_eq!(es[0].ticker, "A");
    assert_eq!(es[1].ticker, "C");
    assert_eq!(es[1].time, "t0");
}

#[test]
fn ticker_scenario_xmr_clock_stamp() {
    let u = KrakenTickerUpdate {
        channel: "ticker".to_string(),
        update_type: "snapshot".to_string(),
        data: vec![KrakenTickerData::from_text("XMR/USD".to_string(), "150.25").unwrap()],
    };
    let before = chrono::Utc::now();
    let es = normalize_ticker_update_now(&u);
    let after = chrono::Utc::now();
    assert_eq!(es.len(), 1);
    assert_eq!(es[0].ticker, "XMR/USD");
    assert_eq!(value(es[0].price), 150.25);
    let t = chrono::DateTime::parse_from_rfc3339(&es[0].time).unwrap();
    assert!(t >= before && t <= after);
}

#[test]
fn history_limit_defaults_to_hundred() {
    let p = HistoryParams { ticker: "BTC/USD".to_string(), limit: None };
    assert_eq!(p.effective_limit(), 100);
    let p = HistoryParams { ticker: "BTC/USD".to_string(), limit: Some(5) };
    assert_eq!(p.effective_limit(), 5);
}
