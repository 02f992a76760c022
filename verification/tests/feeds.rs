use std::collections::HashMap;
use zeta_executor::data::databento::{BookState, DBNHeader, DBNRecord, DatabentoFeed, FeedError};
use zeta_executor::data::feed::{on_frame, Frame, FrameStep};
use zeta_executor::data::thetadata::{QuoteData, ThetaDataFeed};
use zeta_executor::data::{MarketEvent, OptionRight, Side};
use zeta_executor::num::double::Double;
use zeta_executor::outside::Timestamp;

fn q(x: f64) -> Double {
    Double::from_bits(x.to_bits())
}

#[test]
fn frames_are_sorted() {
    assert!(matches!(on_frame(Frame::Text("x".to_string())), FrameStep::Read(t) if t == "x"));
    assert!(matches!(on_frame(Frame::Binary), FrameStep::Skip));
    assert!(matches!(on_frame(Frame::Other), FrameStep::Skip));
    assert!(matches!(on_frame(Frame::Close), FrameStep::Stop));
    assert!(matches!(on_frame(Frame::Failed), FrameStep::Stop));
}

// ── Options ─────────────────────────────────────────────────────────────────

const QUOTE: &str = "{\"type\":\"QUOTE_GREEKS\",\"data\":{\"root\":\"SPY\",\"exp\":\"20250117\",\
\"strike\":450500,\"right\":\"P\",\"bid\":1.25,\"ask\":1.5,\"bid_size\":10,\"ask_size\":4294967297,\
\"underlying_price\":449.5,\"implied_vol\":0.21,\"delta\":-0.4,\"theta\":-0.05,\"vega\":12.5,\
\"rho\":3.3,\"gamma\":0.02,\"vanna\":0.1,\"charm\":0.2,\"vomma\":0.3,\"veta\":0.4}}";

#[test]
fn quotes_are_read() {
    let e = ThetaDataFeed::parse_quote_greeks(QUOTE).unwrap().unwrap();
    assert_eq!((e.root.as_str(), e.expiration.as_str(), e.right), ("SPY", "20250117", OptionRight::Put));
    assert_eq!(e.strike, q(450500.0 / 1000.0));
    assert_eq!((e.bid, e.ask), (q(1.25), q(1.5)));
    assert_eq!((e.bid_size, e.ask_size), (10, 1));
    assert_eq!((e.underlying_price, e.implied_vol), (q(449.5), q(0.21)));
    assert_eq!((e.delta, e.theta), (q(-0.4), q(-0.05)));
    assert_eq!((e.vega, e.rho), (q(12.5 / 100.0), q(3.3 / 100.0)));
    assert_eq!((e.gamma, e.vanna, e.charm), (q(0.02), q(0.1), q(0.2)));
    assert_eq!((e.vomma, e.veta), (q(0.3), q(0.4)));
    assert!(e.ts.secs > 1_600_000_000);
}

#[test]
fn trades_with_greeks_are_quotes_too() {
    let text = QUOTE.replace("QUOTE_GREEKS", "TRADE_GREEKS").replace("\"P\"", "\"C\"");
    let e = ThetaDataFeed::parse_quote_greeks(&text).unwrap().unwrap();
    assert_eq!(e.right, OptionRight::Call);
}

#[test]
fn other_messages_mean_nothing() {
    for text in [
        "{\"type\":\"STATUS\",\"data\":{\"right\":\"C\"}}",
        "{\"data\":{\"right\":\"C\"}}",
        "{\"type\":\"QUOTE_GREEKS\"}",
        "{\"type\":\"QUOTE_GREEKS\",\"data\":{\"right\":\"X\"}}",
        "{\"type\":\"QUOTE_GREEKS\",\"data\":{}}",
        "{\"type\":\"QUOTE_GREEKS\",\"data\":[]}",
        "{\"type\":\"QUOTE_GREEKS\",\"data\":[1,2]}",
        "{\"type\":\"STATUS\",\"data\":[0,0,0,0,0,0,0,0,0,0,0,0,0,0,0,\"SPY\",\"20250117\",450000,\"C\"]}",
        "{\"type\":\"QUOTE_GREEKS\",\"data\":[0,0,0,0,0,0,0,0,0,0,0,0,0,0,0,\"SPY\",\"20250117\",450000,\"X\"]}",
        "[]",
        "3",
    ] {
        assert!(ThetaDataFeed::parse_quote_greeks(text).unwrap().is_none(), "{text}");
    }
    let e = ThetaDataFeed::parse_quote_greeks("not json").err().unwrap();
    assert_eq!(e.message(), "expected ident at line 1 column 2");
}

#[test]
fn listed_quotes_have_their_values_by_place() {
    let text = "{\"type\":\"QUOTE_GREEKS\",\"data\":[34200000,1.5,2.5,10,20,0.25,0.5,-0.75,1.25,2.75,0.5,\
        0.001,34200001,450.0,20250101,\"SPY\",\"20250117\",450000,\"C\"]}";
    let e = ThetaDataFeed::parse_quote_greeks(text).unwrap().unwrap();
    assert_eq!((e.root.as_str(), e.expiration.as_str()), ("SPY", "20250117"));
    assert_eq!((e.strike, e.right), (q(450.0), OptionRight::Call));
    assert_eq!((e.bid, e.ask), (q(1.5), q(2.5)));
    assert_eq!((e.bid_size, e.ask_size), (10, 20));
    assert_eq!((e.underlying_price, e.implied_vol), (q(450.0), q(0.5)));
    assert_eq!((e.gamma, e.vanna, e.charm), (q(0.25), q(0.5), q(-0.75)));
    assert_eq!((e.vomma, e.veta), (q(1.25), q(2.75)));
    assert_eq!((e.delta, e.theta, e.vega, e.rho), (q(0.0), q(0.0), q(0.0), q(0.0)));
}

fn no_data(right: &str) -> QuoteData {
    QuoteData {
        root: None,
        exp: None,
        right: Some(right.to_string()),
        strike: None,
        bid: None,
        ask: None,
        bid_size: None,
        ask_size: None,
        underlying_price: None,
        implied_vol: None,
        delta: None,
        theta: None,
        vega: None,
        rho: None,
        gamma: None,
        vanna: None,
        charm: None,
        vomma: None,
        veta: None,
    }
}

#[test]
fn missing_values_are_zero() {
    let ts = Timestamp { secs: 5, nanos: 6 };
    let e = ThetaDataFeed::quote_event(Some("QUOTE_GREEKS".to_string()), Some(no_data("C")), ts).unwrap();
    assert_eq!((e.root.as_str(), e.expiration.as_str()), ("", ""));
    assert_eq!((e.strike, e.vega, e.bid), (q(0.0), q(0.0), q(0.0)));
    assert_eq!((e.bid_size, e.ask_size), (0, 0));
    assert_eq!(e.ts, ts);
    assert!(ThetaDataFeed::quote_event(None, Some(no_data("C")), ts).is_none());
    assert!(ThetaDataFeed::quote_event(Some("QUOTE_GREEKS".to_string()), None, ts).is_none());
}

#[test]
fn the_option_stream_has_an_address() {
    let f = ThetaDataFeed::new("abc".to_string());
    assert_eq!(f.stream_options(), "wss://stream.thetadata.us/v2/stream?token=abc");
}

// ── Futures ─────────────────────────────────────────────────────────────────

fn record(rtype: u8, id: u64, bid_sz: u32, ask_sz: u32) -> DBNRecord {
    DBNRecord {
        header: DBNHeader { ts_event: 17, instrument_id: id, rtype },
        price: 5_000_250_000_000,
        size: 3,
        side: Some("B".to_string()),
        bid_px: 5_000_000_000_000,
        ask_px: -250_000_000,
        bid_sz,
        ask_sz,
        sequence: 99,
    }
}

fn top(e: Option<MarketEvent>) -> zeta_executor::data::FuturesMBP1Event {
    match e {
        Some(MarketEvent::FuturesMBP1(t)) => t,
        _ => panic!("no top of book"),
    }
}

#[test]
fn trades_are_read() {
    let mut book = HashMap::new();
    match DatabentoFeed::parse_record(&record(4, 7, 1, 1), &mut book) {
        Some(MarketEvent::FuturesTrade(t)) => {
            assert_eq!((t.ts_ns, t.instrument_id, t.size, t.sequence), (17, 7, 3, 99));
            assert_eq!(t.price, q(5_000_250_000_000i64 as f64 / 1e9));
            assert_eq!(t.raw_symbol, "");
            assert_eq!(t.side, Side::Bid);
        }
        _ => panic!("no trade"),
    }
    assert!(book.is_empty());
}

#[test]
fn sides_default_to_neither() {
    let mut book = HashMap::new();
    for (side, want) in [
        (None, Side::Neither),
        (Some(""), Side::Neither),
        (Some("x"), Side::Neither),
        (Some("A..."), Side::Ask),
        (Some("N"), Side::Neither),
    ] {
        let mut r = record(4, 7, 1, 1);
        r.side = side.map(String::from);
        match DatabentoFeed::parse_record(&r, &mut book) {
            Some(MarketEvent::FuturesTrade(t)) => assert_eq!(t.side, want),
            _ => panic!("no trade"),
        }
    }
}

#[test]
fn imbalances_are_reckoned_per_instrument() {
    let mut book = HashMap::new();
    let first = top(DatabentoFeed::parse_record(&record(1, 7, 100, 50), &mut book));
    assert_eq!(first.ofi, 0);
    assert_eq!((first.bid_px, first.ask_px), (q(5000.0), q(-0.25)));
    assert_eq!((first.bid_sz, first.ask_sz, first.sequence), (100, 50, 99));
    let other = top(DatabentoFeed::parse_record(&record(1, 8, 1, 2), &mut book));
    assert_eq!(other.ofi, 0);
    let second = top(DatabentoFeed::parse_record(&record(1, 7, 130, 40), &mut book));
    assert_eq!(second.ofi, 40);
    let third = top(DatabentoFeed::parse_record(&record(1, 7, 0, u32::MAX), &mut book));
    assert_eq!(third.ofi, -130 - (u32::MAX as i64 - 40));
    assert_eq!(book[&7], BookState { bid_sz: 0, ask_sz: u32::MAX });
    assert_eq!(first.ofi + second.ofi + third.ofi, (0 - 100) - (u32::MAX as i64 - 50));
}

#[test]
fn imbalances_add_up_over_a_run() {
    let mut book = HashMap::new();
    let run = [
        record(4, 7, 9, 9),
        record(1, 8, 1, 2),
        record(1, 7, 100, 50),
        record(2, 7, 5, 5),
        record(1, 7, 130, 40),
        record(4, 7, 1, 1),
        record(1, 8, 60, 2),
        record(1, 7, 20, 45),
        record(1, 9, 3, 4),
    ];
    let mut sums: HashMap<u64, i64> = HashMap::new();
    for rec in &run {
        if let Some(MarketEvent::FuturesMBP1(t)) = DatabentoFeed::parse_record(rec, &mut book) {
            *sums.entry(t.instrument_id).or_insert(0) += t.ofi;
        }
    }
    assert_eq!(sums[&7], (20 - 100) - (45 - 50));
    assert_eq!(sums[&8], (60 - 1) - (2 - 2));
    assert_eq!(sums[&9], 0);
}

#[test]
fn other_records_mean_nothing() {
    let mut book = HashMap::new();
    assert!(DatabentoFeed::parse_record(&record(2, 7, 1, 1), &mut book).is_none());
    assert!(book.is_empty());
}

#[test]
fn logins_are_checked() {
    let f = DatabentoFeed::new("key".to_string());
    let a = f.auth_message();
    assert_eq!((a.auth.as_str(), a.dataset.as_str()), ("key", "GLBX.MDP3"));
    assert!(DatabentoFeed::check_auth(Some("{\"type\":\"auth_response\"}".to_string())).is_ok());
    assert!(DatabentoFeed::check_auth(None).is_ok());
    let e = DatabentoFeed::check_auth(Some("{\"type\":\"error\"}".to_string())).unwrap_err();
    assert!(matches!(e, FeedError::AuthFailed { .. }));
    assert_eq!(e.message(), "Databento auth failed: {\"type\":\"error\"}");
    let e = DatabentoFeed::check_auth(Some("?".to_string())).unwrap_err();
    assert!(matches!(e, FeedError::Unreadable(_)));
    assert_eq!(e.message(), "expected value at line 1 column 1");
    assert!(DatabentoFeed::auth_kind_accepted(Some("auth_response".to_string())));
    assert!(!DatabentoFeed::auth_kind_accepted(None));
}

#[test]
fn two_schemas_are_subscribed() {
    let (a, b) = DatabentoFeed::stream_futures(&vec!["ES.FUT".to_string(), "NQ.FUT".to_string()]);
    assert_eq!((a.action.as_str(), a.schema.as_str()), ("subscribe", "mbp-1"));
    assert_eq!((a.symbols.as_str(), a.encoding.as_str()), ("ES.FUT,NQ.FUT", "json"));
    assert_eq!((b.action.as_str(), b.schema.as_str()), ("subscribe", "trades"));
    assert_eq!(b.symbols, "ES.FUT,NQ.FUT");
}
