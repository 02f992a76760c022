use zeta_executor::broker::alpaca::{AlpacaBroker, AlpacaError, OrderBody};
use zeta_executor::broker::dryrun::{dry_name_text, DryRunBroker};
use zeta_executor::broker::tradier::{TradierBroker, TradierError};
use zeta_executor::broker::tradovate::{
    AccountEntry, AuthResponse, PlaceOrderResponse, TradovateBroker, TradovateError,
    RENEWAL_SECONDS,
};
use zeta_executor::broker::{BrokerRouter, Venue};
use zeta_executor::execution::StrikeCandidate;
use zeta_executor::http::{Field, Method, Request};
use zeta_executor::num::double::Double;
use zeta_executor::orders::{
    EntryGreeks, Instrument, Order, OrderLeg, OrderSide, OrderStatus, OrderType, TimeInForce,
};
use zeta_executor::outside::Timestamp;
use zeta_executor::reply::{read_inner_count, read_inner_number, read_inner_text, read_number, read_text, NotJson};

fn v(x: f64) -> Double {
    Double::from_bits(x.to_bits())
}

fn leg_of(instrument: Instrument, symbol: &str, side: OrderSide, price: Option<f64>) -> OrderLeg {
    OrderLeg {
        instrument,
        symbol: symbol.to_string(),
        side,
        quantity: 2,
        order_type: OrderType::Limit,
        limit_price: price.map(v),
        stop_price: None,
    }
}

fn order_with(legs: Vec<OrderLeg>) -> Order {
    let z = v(0.0);
    let g = EntryGreeks { delta: z, gamma: z, vega: z, theta: z };
    Order::with_id(0x1234, Timestamp { secs: 0, nanos: 0 }, "strat-1", legs, TimeInForce::Day, g)
}

const ORDER_ID: &str = "00000000-0000-0000-0000-000000001234";

fn call(price: f64, side: OrderSide) -> OrderLeg {
    leg_of(Instrument::EquityOption, "SPY   231215C00450000", side, Some(price))
}

fn pairs(fields: &[Field]) -> Vec<(String, String)> {
    fields.iter().map(|f| (f.name.clone(), f.value.clone())).collect()
}

fn pair(a: &str, b: &str) -> (String, String) {
    (a.to_string(), b.to_string())
}

fn goes_to(r: &Request, method: Method, url: &str) {
    assert_eq!(r.method, method);
    assert_eq!(r.url, url);
}

// ── Router and dry run ──────────────────────────────────────────────────────

#[test]
fn orders_are_routed_by_instrument() {
    let router = BrokerRouter::new();
    let option = call(1.0, OrderSide::Buy);
    assert_eq!(router.route(&order_with(vec![option.clone()])), Venue::Options);
    assert_eq!(router.route(&order_with(vec![])), Venue::Options);
    let future = leg_of(Instrument::Future, "ESM5", OrderSide::Buy, None);
    assert_eq!(router.route(&order_with(vec![future.clone()])), Venue::Futures);
    assert_eq!(router.route(&order_with(vec![option, future])), Venue::Futures);
    let fop = leg_of(Instrument::FutureOption, "X", OrderSide::Buy, None);
    assert_eq!(router.route(&order_with(vec![fop])), Venue::Futures);
    assert_eq!(router.cancel_order(), Venue::Options);
    assert_eq!(router.get_status(), Venue::Options);
}

#[test]
fn buying_power_is_that_of_both_brokers() {
    assert_eq!(BrokerRouter::account_buying_power(Some(v(100.5)), Some(v(50.25))), v(150.75));
    assert_eq!(BrokerRouter::account_buying_power(None, Some(v(50.25))), v(50.25));
    assert_eq!(BrokerRouter::account_buying_power(None, None), v(0.0));
}

#[test]
fn dry_runs_accept_everything() {
    let b = DryRunBroker::new(v(50_000.0));
    let id = b.submit_order(&order_with(vec![]));
    assert_eq!(id.len(), 12);
    assert!(id.starts_with("DRY-"));
    assert_ne!(id, b.submit_order(&order_with(vec![])));
    assert_eq!(b.get_status("x"), OrderStatus::Filled);
    assert_eq!(b.account_buying_power(), v(50_000.0));
    assert_eq!(dry_name_text(0xdeadbeef_0000_0000_0000_000000000000), "DRY-deadbeef");
}

// ── Alpaca ──────────────────────────────────────────────────────────────────

fn alpaca() -> AlpacaBroker {
    AlpacaBroker::new("K".to_string(), "S".to_string(), true)
}

#[test]
fn alpaca_single_orders() {
    let (r, body) = alpaca().submit_order(&order_with(vec![call(1.23456, OrderSide::Buy)]));
    goes_to(&r, Method::Post, "https://paper-api.alpaca.markets/v2/orders");
    assert_eq!(pairs(&r.headers), [pair("APCA-API-KEY-ID", "K"), pair("APCA-API-SECRET-KEY", "S")]);
    match body {
        OrderBody::Single { leg, time_in_force, client_order_id } => {
            assert_eq!(leg.symbol, "SPY   231215C00450000");
            assert_eq!(leg.qty, "2");
            assert_eq!(leg.side, "buy");
            assert_eq!(leg.order_type, "limit");
            assert_eq!(leg.limit_price, Some("1.2346".to_string()));
            assert_eq!(leg.stop_price, None);
            assert_eq!(time_in_force, "day");
            assert_eq!(client_order_id, ORDER_ID);
        }
        other => panic!("{other:?}"),
    }
}

#[test]
fn alpaca_combinations() {
    let mut second = call(2.0, OrderSide::Sell);
    second.order_type = OrderType::StopLimit;
    second.stop_price = Some(v(3.5));
    let (_, body) = alpaca().submit_order(&order_with(vec![call(1.0, OrderSide::Buy), second]));
    match body {
        OrderBody::Multi { order_type, time_in_force, client_order_id, legs } => {
            assert_eq!((order_type.as_str(), time_in_force.as_str()), ("mlo", "day"));
            assert_eq!(client_order_id, ORDER_ID);
            assert_eq!(legs.len(), 2);
            assert_eq!((legs[1].side.as_str(), legs[1].order_type.as_str()), ("sell", "stop_limit"));
            assert_eq!(legs[1].stop_price, Some("3.5000".to_string()));
        }
        other => panic!("{other:?}"),
    }
    let (_, empty) = alpaca().submit_order(&order_with(vec![]));
    assert!(matches!(empty, OrderBody::Multi { legs, .. } if legs.is_empty()));
}

#[test]
fn alpaca_words() {
    assert_eq!(AlpacaBroker::tif_str(TimeInForce::GTC), "gtc");
    assert_eq!(AlpacaBroker::tif_str(TimeInForce::IOC), "ioc");
    assert_eq!(AlpacaBroker::tif_str(TimeInForce::FOK), "fok");
    let mut l = call(1.0, OrderSide::Buy);
    l.order_type = OrderType::Market;
    l.limit_price = None;
    let b = AlpacaBroker::leg_to_json(&l);
    assert_eq!((b.order_type.as_str(), b.limit_price), ("market", None));
    l.order_type = OrderType::Stop;
    assert_eq!(AlpacaBroker::leg_to_json(&l).order_type, "stop");
}

#[test]
fn alpaca_states() {
    let words = [
        ("new", OrderStatus::Submitted),
        ("accepted", OrderStatus::Submitted),
        ("pending_new", OrderStatus::Submitted),
        ("partially_filled", OrderStatus::PartiallyFilled),
        ("filled", OrderStatus::Filled),
        ("canceled", OrderStatus::Cancelled),
        ("expired", OrderStatus::Cancelled),
        ("rejected", OrderStatus::Rejected),
        ("suspended", OrderStatus::Rejected),
        ("anything", OrderStatus::Pending),
    ];
    for (w, s) in words {
        assert_eq!(AlpacaBroker::status_named(w), s);
        assert_eq!(AlpacaBroker::read_status(&format!("{{\"status\":\"{w}\"}}")), Ok(s));
    }
    assert_eq!(AlpacaBroker::read_status("{}"), Ok(OrderStatus::Pending));
    assert_eq!(AlpacaBroker::read_status("oops"), Err(NotJson));
    assert_eq!(NotJson.message(), "error decoding response body");
}

#[test]
fn alpaca_requests_and_replies() {
    let live = AlpacaBroker::new("K".to_string(), "S".to_string(), false);
    goes_to(&live.cancel_order("b1"), Method::Delete, "https://api.alpaca.markets/v2/orders/b1");
    goes_to(&live.get_status("b1"), Method::Get, "https://api.alpaca.markets/v2/orders/b1");
    goes_to(&live.account_buying_power(), Method::Get, "https://api.alpaca.markets/v2/account");
    assert!(AlpacaBroker::submitted(true, "200 OK", "{}").is_ok());
    let e = AlpacaBroker::submitted(false, "422 Unprocessable Entity", "bad").unwrap_err();
    assert!(matches!(e, AlpacaError::Submit { .. }));
    assert_eq!(e.message(), "Alpaca submit_order failed [422 Unprocessable Entity]: bad");
    assert!(AlpacaBroker::cancelled(true, 200, "").is_ok());
    assert!(AlpacaBroker::cancelled(false, 204, "").is_ok());
    let e = AlpacaBroker::cancelled(false, 404, "404 Not Found").unwrap_err();
    assert!(matches!(e, AlpacaError::Cancel { .. }));
    assert_eq!(e.message(), "Alpaca cancel_order failed: 404 Not Found");
    assert_eq!(
        AlpacaBroker::read_buying_power("{\"buying_power\":\"12.5\"}"),
        Ok(Some("12.5".to_string()))
    );
    assert_eq!(AlpacaBroker::read_buying_power("{\"buying_power\":12.5}"), Ok(None));
}

// ── Tradier ─────────────────────────────────────────────────────────────────

fn tradier() -> TradierBroker {
    TradierBroker::new("T".to_string(), "ACC".to_string(), true)
}

#[test]
fn tradier_symbols() {
    assert_eq!(TradierBroker::tradier_symbol("SPY   231215C00450000"), "SPY231215C00450000");
    assert_eq!(TradierBroker::extract_root("SPY   231215C00450000"), "SPY");
    assert_eq!(TradierBroker::extract_root("GOOGL 231215C00450000"), "GOOGL");
    assert_eq!(TradierBroker::extract_root("F"), "F");
    assert_eq!(TradierBroker::option_side(OrderSide::Buy), "buy_to_open");
    assert_eq!(TradierBroker::option_side(OrderSide::Sell), "sell_to_open");
    assert_eq!(tradier().auth(), "Bearer T");
}

#[test]
fn roots_are_read_back_from_symbols() {
    for root in ["F", "SPY", "GOOGL", "ABCDEF"] {
        let mut c = StrikeCandidate {
            root: root.to_string(),
            expiration: "20250117".to_string(),
            strike: v(97.5),
            right: "put".to_string(),
            dte: 30,
            delta: v(0.0),
            gamma: v(0.0),
            theta: v(0.0),
            vega: v(0.0),
            implied_vol: v(0.0),
            bid: v(0.0),
            ask: v(0.0),
            mid: v(0.0),
            bid_size: 0,
            ask_size: 0,
            underlying_price: v(0.0),
            open_interest: 0,
            spread_pct: v(0.0),
        };
        assert_eq!(TradierBroker::extract_root(&c.occ_symbol()), root);
        c.right = "call".to_string();
        assert_eq!(TradierBroker::tradier_symbol(&c.occ_symbol()), format!("{root}250117C00097500"));
    }
}

#[test]
fn tradier_single_orders() {
    let (r, form) = tradier().submit_order(&order_with(vec![call(1.239, OrderSide::Buy)])).unwrap();
    goes_to(&r, Method::Post, "https://sandbox.tradier.com/v1/accounts/ACC/orders");
    assert_eq!(pairs(&r.headers), [pair("Authorization", "Bearer T"), pair("Accept", "application/json")]);
    assert_eq!(
        pairs(&form),
        [
            pair("class", "option"),
            pair("option_symbol", "SPY231215C00450000"),
            pair("side", "buy_to_open"),
            pair("quantity", "2"),
            pair("type", "limit"),
            pair("price", "1.24"),
            pair("duration", "day"),
        ]
    );
}

#[test]
fn tradier_combinations() {
    let legs = vec![
        call(1.5, OrderSide::Buy),
        leg_of(Instrument::EquityOption, "SPY   231215P00440000", OrderSide::Sell, Some(0.25)),
    ];
    assert_eq!(TradierBroker::net_price(&legs), v(-1.25));
    let live = TradierBroker::new("T".to_string(), "ACC".to_string(), false);
    let (r, form) = live.submit_order(&order_with(legs)).unwrap();
    goes_to(&r, Method::Post, "https://api.tradier.com/v1/accounts/ACC/orders");
    assert_eq!(
        pairs(&form),
        [
            pair("class", "multileg"),
            pair("symbol", "SPY"),
            pair("type", "limit"),
            pair("duration", "day"),
            pair("price", "1.25"),
            pair("option[0][option_symbol]", "SPY231215C00450000"),
            pair("option[0][side]", "buy_to_open"),
            pair("option[0][quantity]", "2"),
            pair("option[1][option_symbol]", "SPY231215P00440000"),
            pair("option[1][side]", "sell_to_open"),
            pair("option[1][quantity]", "2"),
        ]
    );
}

#[test]
fn tradier_needs_legs() {
    let e = tradier().submit_order(&order_with(vec![])).unwrap_err();
    assert!(matches!(e, TradierError::NoLegs));
    assert_eq!(e.message(), "Tradier: order has no legs");
}

#[test]
fn tradier_replies() {
    let ok = TradierBroker::parse_order_response(true, "200 OK", "{\"order\":{\"id\":12345,\"status\":\"ok\"}}");
    assert_eq!(ok.unwrap(), "12345");
    let body = "{\"fault\":{\"faultstring\":\"Invalid token\"}}";
    let e = TradierBroker::parse_order_response(false, "401 Unauthorized", body).unwrap_err();
    assert!(matches!(e, TradierError::Refused { .. }));
    assert_eq!(e.message(), "Tradier API error [401 Unauthorized]: Invalid token");
    let e = TradierBroker::parse_order_response(false, "500", "{}").unwrap_err();
    assert_eq!(e.message(), "Tradier API error [500]: unknown error");
    let e = TradierBroker::parse_order_response(true, "200 OK", "{\"order\":{\"id\":\"x\"}}").unwrap_err();
    assert!(matches!(e, TradierError::NoOrderId { .. }));
    assert_eq!(e.message(), "Tradier response missing order.id: Object {\"order\": Object {\"id\": String(\"x\")}}");
    let e = TradierBroker::parse_order_response(false, "502", "<html>").unwrap_err();
    assert!(matches!(e, TradierError::NotJson));
    assert_eq!(e.message(), "error decoding response body");
    assert_eq!(TradierBroker::order_named(true, "", String::new(), None, Some(7)).unwrap(), "7");
}

#[test]
fn tradier_states_and_balances() {
    let words = [
        ("open", OrderStatus::Submitted),
        ("partially_filled", OrderStatus::Submitted),
        ("filled", OrderStatus::Filled),
        ("canceled", OrderStatus::Cancelled),
        ("expired", OrderStatus::Cancelled),
        ("rejected", OrderStatus::Rejected),
        ("pending", OrderStatus::Pending),
    ];
    for (w, s) in words {
        assert_eq!(TradierBroker::status_named(w), s);
    }
    goes_to(&tradier().get_status("9"), Method::Get, "https://sandbox.tradier.com/v1/accounts/ACC/orders/9");
    goes_to(&tradier().cancel_order("9"), Method::Delete, "https://sandbox.tradier.com/v1/accounts/ACC/orders/9");
    goes_to(&tradier().account_buying_power(), Method::Get, "https://sandbox.tradier.com/v1/accounts/ACC/balances");
    let body = "{\"balances\":{\"option_buying_power\":1234.5}}";
    assert_eq!(TradierBroker::read_buying_power(body), Ok(v(1234.5)));
    assert_eq!(TradierBroker::read_buying_power("{\"balances\":{}}"), Ok(v(0.0)));
    assert_eq!(TradierBroker::read_buying_power("[]"), Ok(v(0.0)));
    assert_eq!(TradierBroker::read_buying_power(""), Err(NotJson));
}

// ── Tradovate ───────────────────────────────────────────────────────────────

fn tradovate() -> TradovateBroker {
    TradovateBroker::connect(
        "user".to_string(),
        "pass".to_string(),
        42,
        "sec".to_string(),
        "dev".to_string(),
        true,
    )
}

fn granted(token: Option<&str>, status: Option<&str>, p: Option<&str>) -> AuthResponse {
    AuthResponse {
        access_token: token.map(String::from),
        user_status: status.map(String::from),
        p_token: p.map(String::from),
        p_time: p.map(|_| "time".to_string()),
    }
}

#[test]
fn tradovate_logs_in() {
    let mut b = tradovate();
    assert!(b.renew().is_none());
    let (r, a) = b.authenticate();
    goes_to(&r, Method::Post, "https://demo.tradovate.com/v1/auth/accesstokenrequest");
    assert!(r.headers.is_empty());
    assert_eq!((a.name.as_str(), a.password.as_str(), a.app_id.as_str()), ("user", "pass", "ZetaField"));
    assert_eq!((a.app_version.as_str(), a.cid, a.sec.as_str(), a.device_id.as_str()), ("0.1.0", 42, "sec", "dev"));
    b.authenticated(granted(Some("TOK"), Some("Active"), Some("P"))).unwrap();
    assert_eq!(b.bearer(), "Bearer TOK");
    let (r, renewal) = b.renew().unwrap();
    goes_to(&r, Method::Post, "https://demo.tradovate.com/v1/auth/renewaccesstoken");
    assert_eq!((renewal.p_ticket.as_str(), renewal.p_time.as_str(), renewal.p_captcha), ("P", "time", false));
    assert_eq!(RENEWAL_SECONDS, 23 * 3600);
}

#[test]
fn tradovate_logins_can_fail() {
    let mut b = tradovate();
    let e = b.authenticated(granted(Some("TOK"), Some("Inactive"), None)).unwrap_err();
    assert!(matches!(e, TradovateError::NotActive { .. }));
    assert_eq!(e.message(), "Tradovate auth: unexpected userStatus = Inactive");
    let e = b.authenticated(granted(Some("TOK"), None, None)).unwrap_err();
    assert_eq!(e.message(), "Tradovate auth: unexpected userStatus = unknown");
    let e = b.authenticated(granted(None, Some("Active"), None)).unwrap_err();
    assert!(matches!(e, TradovateError::NoAccessToken));
    assert_eq!(e.message(), "Tradovate auth: missing accessToken");
    assert_eq!(b.bearer(), "Bearer ");
}

#[test]
fn tradovate_renews() {
    let mut b = tradovate();
    b.authenticated(granted(Some("A"), Some("Active"), Some("P"))).unwrap();
    assert!(!b.renewed(granted(None, None, Some("Q"))));
    assert_eq!(b.bearer(), "Bearer A");
    assert_eq!(b.renew().unwrap().1.p_ticket, "P");
    assert!(b.renewed(granted(Some("B"), None, None)));
    assert_eq!(b.bearer(), "Bearer B");
    assert!(b.renew().is_none());
}

#[test]
fn tradovate_takes_the_first_account() {
    let mut b = tradovate();
    let e = b.account_loaded(vec![]).unwrap_err();
    assert!(matches!(e, TradovateError::NoAccounts));
    assert_eq!(e.message(), "Tradovate: no accounts found");
    b.account_loaded(vec![
        AccountEntry { id: 7, name: "first".to_string() },
        AccountEntry { id: 8, name: "second".to_string() },
    ])
    .unwrap();
    let (r, id) = b.account_buying_power();
    assert_eq!(id, 7);
    goes_to(&r, Method::Post, "https://demo.tradovate.com/v1/cashbalance/getcashbalancesnapshot");
    goes_to(&b.load_account(), Method::Get, "https://demo.tradovate.com/v1/account/list");
}

#[test]
fn tradovate_orders() {
    let mut b = tradovate();
    b.authenticated(granted(Some("TOK"), Some("Active"), None)).unwrap();
    b.account_loaded(vec![AccountEntry { id: 7, name: "first".to_string() }]).unwrap();
    let leg = leg_of(Instrument::Future, "ESM5", OrderSide::Sell, Some(5000.25));
    let (r, p) = b.submit_order(&order_with(vec![leg])).unwrap();
    goes_to(&r, Method::Post, "https://demo.tradovate.com/v1/order/placeorder");
    assert_eq!(pairs(&r.headers), [pair("Authorization", "Bearer TOK")]);
    assert_eq!((p.account_spec.as_str(), p.account_id), ("first", 7));
    assert_eq!((p.action.as_str(), p.symbol.as_str(), p.order_qty), ("Sell", "ESM5", 2));
    assert_eq!((p.order_type.as_str(), p.time_in_force.as_str()), ("Limit", "Day"));
    assert_eq!((p.price, p.stop_price), (Some(v(5000.25)), None));
    assert_eq!(p.text, Some("strategy:strat-1".to_string()));
    let e = b.submit_order(&order_with(vec![])).unwrap_err();
    assert!(matches!(e, TradovateError::NoLegs));
    assert_eq!(e.message(), "Tradovate: order has no legs");
    let two = vec![call(1.0, OrderSide::Buy), call(1.0, OrderSide::Buy)];
    let e = b.submit_order(&order_with(two)).unwrap_err();
    assert!(matches!(e, TradovateError::SeveralLegs));
    assert_eq!(e.message(), "Tradovate: multi-leg futures not yet supported — use spread symbol");
}

fn placed(order_id: Option<i64>, reason: Option<&str>, text: Option<&str>) -> Result<String, TradovateError> {
    TradovateBroker::order_named(PlaceOrderResponse {
        order_id,
        failure_reason: reason.map(String::from),
        failure_text: text.map(String::from),
    })
}

#[test]
fn tradovate_order_replies() {
    assert_eq!(placed(Some(55), None, None).unwrap(), "55");
    assert_eq!(placed(Some(-5), Some("None"), None).unwrap(), "-5");
    let e = placed(Some(55), Some("RiskCheck"), Some("too big")).unwrap_err();
    assert!(matches!(e, TradovateError::Rejected { .. }));
    assert_eq!(e.message(), "Tradovate order rejected: RiskCheck — too big");
    assert_eq!(placed(None, Some("X"), None).unwrap_err().message(), "Tradovate order rejected: X — ");
    let e = placed(None, None, None).unwrap_err();
    assert!(matches!(e, TradovateError::NoOrderId));
    assert_eq!(e.message(), "Tradovate: missing orderId in response");
}

#[test]
fn tradovate_cancels_by_number() {
    let b = tradovate();
    let (r, id) = b.cancel_order("123").unwrap();
    assert_eq!(id, 123);
    goes_to(&r, Method::Post, "https://demo.tradovate.com/v1/order/cancelorder");
    let e = b.cancel_order("12x").unwrap_err();
    assert!(matches!(e, TradovateError::BadBrokerId { .. }));
    assert_eq!(e.message(), "Tradovate: invalid broker_id '12x'");
    goes_to(&b.get_status("9"), Method::Get, "https://demo.tradovate.com/v1/order/9");
}

#[test]
fn tradovate_states_and_cash() {
    let words = [
        ("Working", OrderStatus::Submitted),
        ("PendingNew", OrderStatus::Submitted),
        ("Triggered", OrderStatus::Submitted),
        ("Canceled", OrderStatus::Cancelled),
        ("Expired", OrderStatus::Cancelled),
        ("Filled", OrderStatus::Filled),
        ("Rejected", OrderStatus::Rejected),
        ("Unknown", OrderStatus::Pending),
    ];
    for (w, s) in words {
        assert_eq!(TradovateBroker::status_named(w), s);
        assert_eq!(TradovateBroker::read_status(&format!("{{\"ordStatus\":\"{w}\"}}")), Ok(s));
    }
    assert_eq!(TradovateBroker::read_status("{\"ordStatus\":3}"), Ok(OrderStatus::Pending));
    assert_eq!(TradovateBroker::read_status("{"), Err(NotJson));
    assert_eq!(TradovateBroker::read_buying_power("{\"totalCashValue\":10.5}"), Ok(v(10.5)));
    assert_eq!(TradovateBroker::read_buying_power("{}"), Ok(v(0.0)));
    assert_eq!(TradovateBroker::tif_str(TimeInForce::Day), "Day");
    assert_eq!(TradovateBroker::tif_str(TimeInForce::GTC), "GTC");
    assert_eq!(TradovateBroker::tif_str(TimeInForce::IOC), "IOC");
    assert_eq!(TradovateBroker::tif_str(TimeInForce::FOK), "FOK");
    let live = TradovateBroker::connect(
        String::new(),
        String::new(),
        0,
        String::new(),
        String::new(),
        false,
    );
    goes_to(&live.get("/x"), Method::Get, "https://live.tradovate.com/v1/x");
    goes_to(&live.post("/y"), Method::Post, "https://live.tradovate.com/v1/y");
}

// ── Replies ─────────────────────────────────────────────────────────────────

#[test]
fn values_are_read_out_of_documents() {
    let doc = "{\"a\":\"x\",\"n\":2.5,\"i\":7,\"neg\":-7,\"o\":{\"t\":\"y\",\"n\":1,\"c\":9}}";
    assert_eq!(read_text(doc, "a"), Ok(Some("x".to_string())));
    assert_eq!(read_text(doc, "n"), Ok(None));
    assert_eq!(read_text(doc, "zz"), Ok(None));
    assert_eq!(read_number(doc, "n"), Ok(Some(v(2.5))));
    assert_eq!(read_number(doc, "neg"), Ok(Some(v(-7.0))));
    assert_eq!(read_number(doc, "a"), Ok(None));
    assert_eq!(read_inner_text(doc, "o", "t"), Ok(Some("y".to_string())));
    assert_eq!(read_inner_number(doc, "o", "n"), Ok(Some(v(1.0))));
    assert_eq!(read_inner_count(doc, "o", "c"), Ok(Some(9)));
    assert_eq!(read_inner_count(doc, "o", "t"), Ok(None));
    assert_eq!(read_inner_count(doc, "a", "t"), Ok(None));
    assert_eq!(read_inner_count(doc, "none", "t"), Ok(None));
    assert_eq!(read_text("[1,2]", "a"), Ok(None));
    assert_eq!(read_text("{", "a"), Err(NotJson));
}
