use zeta_executor::data::{
    CodeError, FuturesMBOEvent, FuturesTradeEvent, MBOAction, MarketEvent, OptionQuoteEvent,
    OptionRight, Side,
};
use zeta_executor::num::double::Double;
use zeta_executor::orders::{
    hedge_for, select_open, sum_greeks, EntryGreeks, GreeksContribution, Instrument, Order,
    OrderLeg, OrderManagementSystem, OrderSide, OrderStatus, OrderType, Position, StrategyType,
    TimeInForce,
};
use zeta_executor::outside::Timestamp;

fn d(x: f64) -> Double {
    Double::from_bits(x.to_bits())
}

fn f(x: Double) -> f64 {
    f64::from_bits(x.bits)
}

fn greeks() -> EntryGreeks {
    EntryGreeks { delta: d(0.1), gamma: d(0.2), vega: d(-0.3), theta: d(0.4) }
}

fn leg(symbol: &str) -> OrderLeg {
    OrderLeg {
        instrument: Instrument::EquityOption,
        symbol: symbol.to_string(),
        side: OrderSide::Buy,
        quantity: 3,
        order_type: OrderType::Limit,
        limit_price: Some(d(1.25)),
        stop_price: None,
    }
}

fn order(id: u128, status: OrderStatus) -> Order {
    let ts = Timestamp { secs: 1_700_000_000, nanos: 5 };
    let mut o = Order::with_id(id, ts, "s", vec![leg("A")], TimeInForce::Day, greeks());
    o.status = status;
    o
}

fn position(symbol: &str, quantity: i64, delta: f64) -> Position {
    Position {
        symbol: symbol.to_string(),
        quantity,
        avg_cost: d(2.0),
        instrument: Instrument::EquityOption,
        delta: d(delta),
        gamma: d(0.01),
        theta: d(-0.02),
        vega: d(0.03),
        vanna: d(0.04),
        charm: d(0.05),
    }
}

fn quote(root: &str, strike: f64, right: OptionRight) -> OptionQuoteEvent {
    OptionQuoteEvent {
        ts: Timestamp { secs: 0, nanos: 0 },
        root: root.to_string(),
        expiration: "20250117".to_string(),
        strike: d(strike),
        right,
        bid: d(1.0),
        ask: d(1.1),
        bid_size: 1,
        ask_size: 2,
        underlying_price: d(450.0),
        implied_vol: d(0.2),
        delta: d(0.55),
        theta: d(-0.11),
        vega: d(0.22),
        rho: d(0.01),
        gamma: d(0.33),
        vanna: d(0.44),
        charm: d(0.66),
        vomma: d(0.0),
        veta: d(0.0),
    }
}

#[test]
fn new_orders_are_pending() {
    let o = Order::new("strat", vec![leg("A"), leg("B")], TimeInForce::GTC, greeks());
    assert_eq!(o.status, OrderStatus::Pending);
    assert_eq!(o.filled_qty, 0);
    assert_eq!(f(o.avg_fill_px), 0.0);
    assert_eq!(o.broker_id, None);
    assert_eq!(o.strategy_id, "strat");
    assert_eq!(o.legs.len(), 2);
    assert_eq!(o.legs[1].symbol, "B");
    assert_eq!(o.tif, TimeInForce::GTC);
    assert_eq!(f(o.delta_at_entry), 0.1);
    assert_eq!(f(o.gamma_at_entry), 0.2);
    assert_eq!(f(o.vega_at_entry), -0.3);
    assert_eq!(f(o.theta_at_entry), 0.4);
    assert!(o.created_at.secs > 1_600_000_000);
}

#[test]
fn new_orders_have_random_identifiers() {
    let a = Order::new("s", vec![], TimeInForce::Day, greeks());
    let b = Order::new("s", vec![], TimeInForce::Day, greeks());
    assert_ne!(a.id, b.id);
    assert_eq!((a.id >> 76) & 0xf, 4);
    assert_eq!((a.id >> 62) & 0x3, 2);
}

#[test]
fn orders_can_be_copied() {
    let a = order(9, OrderStatus::PartiallyFilled);
    let b = a.clone();
    assert_eq!(b.id, 9);
    assert_eq!(b.status, OrderStatus::PartiallyFilled);
    assert_eq!(b.legs[0].symbol, "A");
    assert_eq!(b.legs[0].limit_price, Some(d(1.25)));
}

#[test]
fn submitted_orders_are_found() {
    let mut oms = OrderManagementSystem::new();
    assert!(oms.get_order(7).is_none());
    assert_eq!(oms.submit(order(7, OrderStatus::Submitted)), 7);
    assert_eq!(oms.submit(order(8, OrderStatus::Filled)), 8);
    assert_eq!(oms.get_order(7).unwrap().status, OrderStatus::Submitted);
    assert_eq!(oms.get_order(8).unwrap().status, OrderStatus::Filled);
    assert!(oms.get_order(9).is_none());
}

#[test]
fn a_second_order_replaces_the_first_under_its_identifier() {
    let mut oms = OrderManagementSystem::new();
    oms.submit(order(7, OrderStatus::Pending));
    oms.submit(order(7, OrderStatus::Rejected));
    assert_eq!(oms.get_order(7).unwrap().status, OrderStatus::Rejected);
    assert!(oms.open_orders().is_empty());
}

#[test]
fn open_orders_are_the_latest_of_their_identifiers() {
    let mut oms = OrderManagementSystem::new();
    for (id, status) in [
        (1, OrderStatus::Pending),
        (2, OrderStatus::Submitted),
        (1, OrderStatus::Filled),
        (3, OrderStatus::Cancelled),
        (2, OrderStatus::PartiallyFilled),
        (3, OrderStatus::Pending),
        (4, OrderStatus::Submitted),
    ] {
        oms.submit(order(id, status));
    }
    let mut open: Vec<(u128, OrderStatus)> =
        oms.open_orders().iter().map(|o| (o.id, o.status)).collect();
    open.sort_by_key(|(id, _)| *id);
    assert_eq!(
        open,
        [
            (2, OrderStatus::PartiallyFilled),
            (3, OrderStatus::Pending),
            (4, OrderStatus::Submitted),
        ]
    );
}

#[test]
fn open_orders_are_the_unfinished_ones() {
    let mut oms = OrderManagementSystem::new();
    let all = [
        OrderStatus::Pending,
        OrderStatus::Submitted,
        OrderStatus::PartiallyFilled,
        OrderStatus::Filled,
        OrderStatus::Cancelled,
        OrderStatus::Rejected,
    ];
    for (i, s) in all.iter().enumerate() {
        oms.submit(order(i as u128, *s));
    }
    let mut ids: Vec<u128> = oms.open_orders().iter().map(|o| o.id).collect();
    ids.sort();
    assert_eq!(ids, vec![0, 1, 2]);
    let list: Vec<Order> = all.iter().enumerate().map(|(i, s)| order(i as u128, *s)).collect();
    let kept: Vec<u128> = select_open(&list).iter().map(|o| o.id).collect();
    assert_eq!(kept, vec![0, 1, 2]);
}

#[test]
fn quotes_renew_the_greeks_of_their_position() {
    let mut oms = OrderManagementSystem::new();
    oms.hold("SPY_20250117_450_Call", position("SPY", 2, 0.1));
    oms.hold("SPY_20250117_450_Put", position("SPY", 1, 0.1));
    oms.on_equity_event(MarketEvent::OptionQuote(quote("SPY", 450.0, OptionRight::Call)));
    let g = oms.portfolio_greeks();
    assert_eq!(f(g.delta), 2.0 * 0.55 + 0.1);
    assert_eq!(f(g.gamma), 2.0 * 0.33 + 0.01);
    assert_eq!(f(g.theta), 2.0 * -0.11 + -0.02);
    assert_eq!(f(g.vega), 2.0 * 0.22 + 0.03);
    assert_eq!(f(g.vanna), 2.0 * 0.44 + 0.04);
    assert_eq!(f(g.charm), 2.0 * 0.66 + 0.05);
}

#[test]
fn quotes_of_unknown_options_change_nothing() {
    let mut oms = OrderManagementSystem::new();
    oms.hold("SPY_20250117_450_Call", position("SPY", 2, 0.1));
    oms.on_equity_event(MarketEvent::OptionQuote(quote("SPY", 451.0, OptionRight::Call)));
    oms.on_equity_event(MarketEvent::OptionQuote(quote("QQQ", 450.0, OptionRight::Call)));
    oms.on_equity_event(MarketEvent::OptionQuote(quote("SPY", 450.0, OptionRight::Put)));
    assert_eq!(f(oms.portfolio_greeks().delta), 0.2);
}

#[test]
fn strikes_in_keys_are_rounded() {
    let mut oms = OrderManagementSystem::new();
    oms.hold("SPY_20250117_452_Put", position("SPY", 1, 0.1));
    oms.on_equity_event(MarketEvent::OptionQuote(quote("SPY", 452.5, OptionRight::Put)));
    assert_eq!(f(oms.portfolio_greeks().delta), 0.55);
}

#[test]
fn futures_events_change_nothing() {
    let mut oms = OrderManagementSystem::new();
    oms.hold("FUT_5", position("ES", 1, 1.0));
    oms.on_futures_event(MarketEvent::FuturesTrade(FuturesTradeEvent {
        ts_ns: 1,
        instrument_id: 5,
        raw_symbol: String::new(),
        price: d(5000.0),
        size: 1,
        side: Side::Bid,
        sequence: 1,
    }));
    oms.on_futures_event(MarketEvent::FuturesMBO(FuturesMBOEvent {
        ts_ns: 1,
        instrument_id: 5,
        order_id: 1,
        price: d(1.0),
        size: 1,
        side: Side::Ask,
        action: MBOAction::Add,
        sequence: 1,
    }));
    assert_eq!(f(oms.portfolio_greeks().delta), 1.0);
}

#[test]
fn an_empty_portfolio_has_no_greeks() {
    let oms = OrderManagementSystem::new();
    assert_eq!(oms.portfolio_greeks(), GreeksContribution::default());
    assert_eq!(sum_greeks(&vec![]), GreeksContribution::default());
}

#[test]
fn contributions_are_signed() {
    let c = position("X", -3, 0.5).portfolio_contribution();
    assert_eq!(f(c.delta), -1.5);
    assert_eq!(f(c.gamma), -3.0 * 0.01);
    let total = sum_greeks(&vec![position("X", -3, 0.5), position("Y", 1, 0.25)]);
    assert_eq!(f(total.delta), -1.25);
}

#[test]
fn a_hedge_is_needed_beyond_the_tolerance_only() {
    let mut oms = OrderManagementSystem::new();
    oms.hold("a", position("A", 10, 0.5));
    assert_eq!(oms.delta_hedge_required(d(0.0), d(1.0)), Some(d(-5.0)));
    assert_eq!(oms.delta_hedge_required(d(5.0), d(0.0)), None);
    assert_eq!(oms.delta_hedge_required(d(0.0), d(5.0)), None);
    assert_eq!(oms.delta_hedge_required(d(8.0), d(1.0)), Some(d(3.0)));
    assert_eq!(hedge_for(d(f64::NAN), d(0.0), d(1.0)), None);
}

#[test]
fn actions_and_sides_have_codes() {
    let codes = [
        ('A', MBOAction::Add),
        ('C', MBOAction::Cancel),
        ('M', MBOAction::Modify),
        ('T', MBOAction::Trade),
        ('F', MBOAction::Fill),
        ('R', MBOAction::Clear),
    ];
    for (c, a) in codes {
        assert_eq!(MBOAction::try_from(c), Ok(a));
    }
    let e = MBOAction::try_from('x').unwrap_err();
    assert_eq!(e, CodeError::UnknownAction('x'));
    assert_eq!(e.message(), "Unknown MBO action: x");
    assert_eq!(Side::try_from('B'), Ok(Side::Bid));
    assert_eq!(Side::try_from('A'), Ok(Side::Ask));
    assert_eq!(Side::try_from('N'), Ok(Side::Neither));
    assert_eq!(Side::try_from('Z'), Ok(Side::Neither));
    assert_eq!(Side::try_from('b').unwrap_err().message(), "Unknown side: b");
}

#[test]
fn strategies_have_distinct_names() {
    let all = [
        StrategyType::IronCondor,
        StrategyType::Strangle,
        StrategyType::IronButterfly,
        StrategyType::LongStraddle,
        StrategyType::LongStrangle,
        StrategyType::Backspread,
        StrategyType::RiskReversal,
        StrategyType::FuturesCalendar,
        StrategyType::FuturesLong,
        StrategyType::FuturesShort,
        StrategyType::DeltaHedge,
        StrategyType::DoNothing,
    ];
    for s in all {
        assert_eq!(StrategyType::named(s.name()), Some(s));
    }
    assert_eq!(StrategyType::named("ironcondor"), None);
    assert_eq!(StrategyType::named(""), None);
}

#[test]
fn instruments_and_states() {
    assert!(Instrument::Future.is_futures());
    assert!(Instrument::FutureOption.is_futures());
    assert!(!Instrument::EquityOption.is_futures());
    assert!(OrderStatus::PartiallyFilled.is_open());
    assert!(!OrderStatus::Filled.is_open());
}
