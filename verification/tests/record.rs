use zeta_executor::num::double::Double;
use zeta_executor::orders::persistence::{
    ev_action_planned, ev_cancelled, ev_decision_made, ev_filled, ev_signal_received, ev_start,
    ev_stop, ev_submitted, EventLog, OmsEvent, ReconstructedState, PREVIEW, VERSION,
};
use zeta_executor::orders::{
    EntryGreeks, Instrument, Order, OrderManagementSystem, OrderStatus, Position, TimeInForce,
};
use zeta_executor::outside::Timestamp;

fn num(x: f64) -> Double {
    Double::from_bits(x.to_bits())
}

fn an_order(id: u128) -> Order {
    let zero = num(0.0);
    let g = EntryGreeks { delta: zero, gamma: zero, vega: zero, theta: zero };
    let ts = Timestamp { secs: 1, nanos: 2 };
    let mut o = Order::with_id(id, ts, "s", vec![], TimeInForce::Day, g);
    o.status = OrderStatus::Submitted;
    o
}

fn held(symbol: &str, quantity: i64) -> Position {
    Position {
        symbol: symbol.to_string(),
        quantity,
        avg_cost: num(1.0),
        instrument: Instrument::Future,
        delta: num(1.0),
        gamma: num(0.0),
        theta: num(0.0),
        vega: num(0.0),
        vanna: num(0.0),
        charm: num(0.0),
    }
}

fn updated(p: Position) -> OmsEvent {
    OmsEvent::PositionUpdated { ts: "t".to_string(), position: p }
}

const ID1: &str = "00000000-0000-0000-0000-000000000001";
const ID2: &str = "00000000-0000-0000-0000-0000000000ab";

#[test]
fn an_empty_record_gives_nothing() {
    let s = EventLog::reconstruct(&vec![]);
    assert!(s.orders.is_empty() && s.open_orders.is_empty() && s.positions.is_empty());
    assert_eq!(s.last_start, None);
    assert_eq!(s.version, "");
    let fresh = ReconstructedState::default();
    assert!(fresh.orders.is_empty());
}

#[test]
fn fills_close_their_order() {
    let events = vec![
        ev_submitted(an_order(1)),
        ev_submitted(an_order(0xab)),
        ev_filled(ID2, "B-2", 5, num(1.75)),
    ];
    let s = EventLog::reconstruct(&events);
    assert_eq!(s.orders.len(), 2);
    assert_eq!(s.orders[1].status, OrderStatus::Filled);
    assert_eq!(s.orders[1].filled_qty, 5);
    assert_eq!(s.orders[1].avg_fill_px, num(1.75));
    assert_eq!(s.orders[1].broker_id, Some("B-2".to_string()));
    assert_eq!(s.orders[0].status, OrderStatus::Submitted);
    assert_eq!(s.open_orders.len(), 1);
    assert_eq!(s.open_orders[0].id, 1);
}

#[test]
fn cancelled_and_rejected_orders_are_closed() {
    let events = vec![
        ev_submitted(an_order(1)),
        ev_submitted(an_order(0xab)),
        ev_cancelled(ID1, "user"),
        OmsEvent::OrderRejected {
            ts: "t".to_string(),
            order_id: ID2.to_string(),
            reason: "margin".to_string(),
        },
    ];
    let s = EventLog::reconstruct(&events);
    assert_eq!(s.orders[0].status, OrderStatus::Cancelled);
    assert_eq!(s.orders[1].status, OrderStatus::Rejected);
    assert!(s.open_orders.is_empty());
}

#[test]
fn events_about_unknown_orders_are_passed_over() {
    let events = vec![ev_submitted(an_order(1)), ev_cancelled(ID2, "x"), ev_filled("nope", "b", 1, num(1.0))];
    let s = EventLog::reconstruct(&events);
    assert_eq!(s.orders.len(), 1);
    assert_eq!(s.orders[0].status, OrderStatus::Submitted);
}

#[test]
fn only_the_first_order_of_an_identifier_changes() {
    let events = vec![ev_submitted(an_order(1)), ev_submitted(an_order(1)), ev_cancelled(ID1, "x")];
    let s = EventLog::reconstruct(&events);
    assert_eq!(s.orders[0].status, OrderStatus::Cancelled);
    assert_eq!(s.orders[1].status, OrderStatus::Submitted);
    assert_eq!(s.open_orders.len(), 1);
}

#[test]
fn identifiers_are_compared_as_lower_case_text() {
    let events = vec![ev_submitted(an_order(0xab)), ev_cancelled(&ID2.to_uppercase(), "x")];
    let s = EventLog::reconstruct(&events);
    assert_eq!(s.open_orders.len(), 1);
}

#[test]
fn each_symbol_has_one_position() {
    let events = vec![
        updated(held("ES", 1)),
        updated(held("NQ", 2)),
        updated(held("ES", -4)),
    ];
    let s = EventLog::reconstruct(&events);
    let got: Vec<(String, i64)> = s.positions.iter().map(|p| (p.symbol.clone(), p.quantity)).collect();
    assert_eq!(got, vec![("NQ".to_string(), 2), ("ES".to_string(), -4)]);
}

#[test]
fn the_last_start_counts() {
    let start = |ts: &str, v: &str| OmsEvent::SystemStart { ts: ts.to_string(), version: v.to_string() };
    let s = EventLog::reconstruct(&vec![start("t1", "0.0.9"), start("t2", "0.1.0"), ev_stop("bye")]);
    assert_eq!(s.last_start, Some("t2".to_string()));
    assert_eq!(s.version, "0.1.0");
}

#[test]
fn audit_events_change_nothing() {
    let events = vec![
        ev_submitted(an_order(1)),
        ev_stop("x"),
        OmsEvent::GreeksUpdated {
            ts: "t".to_string(),
            symbol: "ES".to_string(),
            delta: num(1.0),
            gamma: num(1.0),
            theta: num(1.0),
            vega: num(1.0),
        },
        ev_signal_received("id", "SPY", "IronCondor", true, "ctx"),
        ev_decision_made("id", "llm", "h", true, "r", num(0.5), None),
        ev_action_planned("id", "Skip", "why"),
    ];
    let s = EventLog::reconstruct(&events);
    assert_eq!(s.orders.len(), 1);
    assert_eq!(s.open_orders.len(), 1);
    assert!(s.positions.is_empty());
    assert_eq!(s.last_start, None);
}

#[test]
fn a_restart_holds_the_open_orders_again() {
    let events = vec![ev_submitted(an_order(1)), ev_submitted(an_order(0xab)), ev_cancelled(ID1, "x")];
    let s = EventLog::reconstruct(&events);
    let mut oms = OrderManagementSystem::new();
    oms.restore(&s.open_orders);
    assert!(oms.get_order(1).is_none());
    assert_eq!(oms.get_order(0xab).unwrap().status, OrderStatus::Submitted);
    assert_eq!(oms.open_orders().len(), 1);
}

#[test]
fn events_say_what_they_are_told() {
    match ev_start() {
        OmsEvent::SystemStart { ts, version } => {
            assert_eq!(version, VERSION);
            assert_eq!(version, "0.1.0");
            assert!(ts.contains('T') && ts.ends_with("+00:00"));
        }
        other => panic!("{other:?}"),
    }
    match ev_filled("o", "b", 3, num(2.5)) {
        OmsEvent::OrderFilled { order_id, broker_id, fill_qty, fill_price, .. } => {
            assert_eq!((order_id.as_str(), broker_id.as_str(), fill_qty), ("o", "b", 3));
            assert_eq!(fill_price, num(2.5));
        }
        other => panic!("{other:?}"),
    }
    match ev_stop("why") {
        OmsEvent::SystemStop { reason, .. } => assert_eq!(reason, "why"),
        other => panic!("{other:?}"),
    }
    match ev_cancelled("o", "r") {
        OmsEvent::OrderCancelled { order_id, reason, .. } => {
            assert_eq!((order_id.as_str(), reason.as_str()), ("o", "r"))
        }
        other => panic!("{other:?}"),
    }
    match ev_decision_made("s", "llm", "h", false, "because", num(0.7), Some(num(0.5))) {
        OmsEvent::DecisionMade { signal_id, source, request_hash, approved, reasoning, confidence, sizing_adjustment, .. } => {
            assert_eq!((signal_id.as_str(), source.as_str(), request_hash.as_str()), ("s", "llm", "h"));
            assert_eq!((approved, reasoning.as_str()), (false, "because"));
            assert_eq!((confidence, sizing_adjustment), (num(0.7), Some(num(0.5))));
        }
        other => panic!("{other:?}"),
    }
    match ev_action_planned("s", "Submit", "d") {
        OmsEvent::ActionPlanned { signal_id, action, detail, .. } => {
            assert_eq!((signal_id.as_str(), action.as_str(), detail.as_str()), ("s", "Submit", "d"))
        }
        other => panic!("{other:?}"),
    }
}

#[test]
fn market_descriptions_are_cut_after_two_hundred_characters() {
    assert_eq!(PREVIEW, 200);
    let long: String = "é".repeat(250);
    match ev_signal_received("id", "SPY", "Strangle", true, &long) {
        OmsEvent::SignalReceived { signal_id, symbol, strategy_type, needs_llm, zeta_context_preview, .. } => {
            assert_eq!((signal_id.as_str(), symbol.as_str(), strategy_type.as_str()), ("id", "SPY", "Strangle"));
            assert!(needs_llm);
            assert_eq!(zeta_context_preview, "é".repeat(200));
        }
        other => panic!("{other:?}"),
    }
    match ev_signal_received("id", "SPY", "Strangle", false, "short") {
        OmsEvent::SignalReceived { zeta_context_preview, .. } => assert_eq!(zeta_context_preview, "short"),
        other => panic!("{other:?}"),
    }
}

#[test]
fn the_record_gives_back_what_was_written() {
    let entries = ["{\"a\":1}", "{\"b\":\"x y\"}", "{}"];
    let mut content = String::new();
    for e in entries {
        content.push_str(&EventLog::append(e));
    }
    assert_eq!(content, "{\"a\":1}\n{\"b\":\"x y\"}\n{}\n");
    assert_eq!(EventLog::entries(&content), entries);
}

#[test]
fn an_appended_event_is_replayed_last() {
    let mut content = "{\"a\":1}\n\n  torn\n".to_string();
    let before = EventLog::entries(&content);
    assert_eq!(before, ["{\"a\":1}", "torn"]);
    content.push_str(&EventLog::append("{\"b\":2}"));
    assert_eq!(EventLog::entries(&content), ["{\"a\":1}", "torn", "{\"b\":2}"]);
    let read = |entries: Vec<String>| {
        entries
            .iter()
            .map(|e| if e == "torn" { None } else { Some(ev_stop(e)) })
            .collect::<Vec<Option<OmsEvent>>>()
    };
    let reasons: Vec<String> = EventLog::replay(read(EventLog::entries(&content)))
        .into_iter()
        .map(|e| match e {
            OmsEvent::SystemStop { reason, .. } => reason,
            _ => panic!("another event"),
        })
        .collect();
    assert_eq!(reasons, ["{\"a\":1}", "{\"b\":2}"]);
}

#[test]
fn blank_lines_and_white_space_are_dropped() {
    assert_eq!(EventLog::entries("\n  \n a \r\n\n\tb\n   "), vec!["a", "b"]);
    assert!(EventLog::entries("").is_empty());
}

#[test]
fn unreadable_entries_are_passed_over() {
    let kept = EventLog::replay(vec![Some(ev_stop("a")), None, Some(ev_stop("b")), None]);
    let reasons: Vec<String> = kept
        .into_iter()
        .map(|e| match e {
            OmsEvent::SystemStop { reason, .. } => reason,
            other => panic!("{other:?}"),
        })
        .collect();
    assert_eq!(reasons, vec!["a", "b"]);
}

#[test]
fn the_record_knows_its_place() {
    assert_eq!(EventLog::new("/var/log/x.jsonl".to_string()).path(), "/var/log/x.jsonl");
}
