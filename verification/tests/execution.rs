use zeta_executor::agent::decision::StrategyDecision;
use zeta_executor::execution::plan::{
    can_plan, plan_action, validate_llm_decision, Action, DecisionError, ValidatedDecision,
};
use zeta_executor::execution::greeks::can_estimate;
use zeta_executor::execution::strikes::can_search;
use zeta_executor::execution::{
    build_order, buy_leg, can_build, closest_delta, estimate_order_greeks, required_capital,
    sell_leg, BuildError, StrikeCandidate,
};
use zeta_executor::num::double::Double;
use zeta_executor::orders::{
    EntryGreeks, Instrument, Order, OrderLeg, OrderSide, OrderStatus, OrderType, StrategyType,
    TimeInForce,
};

fn x(v: f64) -> Double {
    Double::from_bits(v.to_bits())
}

fn y(v: Double) -> f64 {
    f64::from_bits(v.bits)
}

fn candidate(right: &str, strike: f64, delta: f64) -> StrikeCandidate {
    StrikeCandidate {
        root: "SPY".to_string(),
        expiration: "20250117".to_string(),
        strike: x(strike),
        right: right.to_string(),
        dte: 30,
        delta: x(delta),
        gamma: x(0.02),
        theta: x(-0.05),
        vega: x(0.1),
        implied_vol: x(0.2),
        bid: x(1.0),
        ask: x(1.2),
        mid: x(1.1),
        bid_size: 10,
        ask_size: 10,
        underlying_price: x(450.0),
        open_interest: 500,
        spread_pct: x(0.1),
    }
}

fn chain() -> Vec<StrikeCandidate> {
    vec![
        candidate("call", 450.0, 0.50),
        candidate("call", 460.0, 0.30),
        candidate("call", 465.0, 0.25),
        candidate("call", 470.0, 0.20),
        candidate("call", 475.0, 0.16),
        candidate("call", 480.0, 0.10),
        candidate("call", 490.0, 0.05),
        candidate("put", 450.0, -0.50),
        candidate("put", 440.0, -0.30),
        candidate("put", 435.0, -0.25),
        candidate("put", 430.0, -0.20),
        candidate("put", 425.0, -0.16),
        candidate("put", 420.0, -0.10),
        candidate("put", 410.0, -0.05),
    ]
}

fn entry() -> EntryGreeks {
    EntryGreeks { delta: x(0.1), gamma: x(0.0), vega: x(-5.0), theta: x(2.0) }
}

fn build(strategy: &str, cs: &[StrikeCandidate], contracts: u32) -> Result<Order, BuildError> {
    assert!(can_build(strategy, cs, 30));
    build_order(strategy, cs, contracts, 30, "sid", entry())
}

fn described(o: &Order) -> Vec<String> {
    o.legs
        .iter()
        .map(|l| format!("{:?} {} x{}", l.side, l.symbol, l.quantity))
        .collect()
}

#[test]
fn symbols_have_fixed_columns() {
    assert_eq!(candidate("call", 450.0, 0.5).occ_symbol(), "SPY   250117C00450000");
    assert_eq!(candidate("put", 97.5, 0.5).occ_symbol(), "SPY   250117P00097500");
    let mut c = candidate("other", 0.0005, 0.5);
    c.root = "LONGROOT".to_string();
    assert_eq!(c.occ_symbol(), "LONGROOT250117P00000001");
    assert!(!c.is_call());
    assert!(!c.is_put());
    assert!(candidate("put", 1.0, 0.0).is_put());
}

#[test]
fn the_closest_delta_is_chosen() {
    let cs = chain();
    let c = closest_delta(&cs, x(0.17), true, 30, 7).unwrap();
    assert_eq!(y(c.strike), 475.0);
    let p = closest_delta(&cs, x(-0.17), false, 30, 7).unwrap();
    assert_eq!(y(p.strike), 425.0);
}

#[test]
fn the_first_of_equally_close_options_is_chosen() {
    let cs = vec![candidate("call", 1.0, 0.25), candidate("call", 2.0, 0.75), candidate("call", 3.0, 0.25)];
    let c = closest_delta(&cs, x(0.5), true, 30, 7).unwrap();
    assert_eq!(y(c.strike), 1.0);
}

#[test]
fn illiquid_options_are_passed_over() {
    let mut wide = candidate("call", 1.0, 0.5);
    wide.spread_pct = x(0.2500001);
    let mut cheap = candidate("call", 2.0, 0.5);
    cheap.bid = x(0.0499);
    let mut thin = candidate("call", 3.0, 0.5);
    thin.open_interest = 99;
    let mut far = candidate("call", 4.0, 0.5);
    far.dte = 38;
    let mut near = candidate("call", 5.0, 0.5);
    near.dte = 22;
    let mut nan_spread = candidate("call", 6.0, 0.5);
    nan_spread.spread_pct = x(f64::NAN);
    let put = candidate("put", 7.0, 0.5);
    let cs = vec![wide, cheap, thin, far, near, nan_spread, put];
    assert!(closest_delta(&cs, x(0.5), true, 30, 7).is_none());
}

#[test]
fn other_options_do_not_change_an_order() {
    let mut mixed = Vec::new();
    for (i, c) in chain().into_iter().enumerate() {
        let mut other = candidate(&c.right, y(c.strike) + 1.0, y(c.delta));
        match i % 4 {
            0 => other.open_interest = 99,
            1 => other.spread_pct = x(0.26),
            2 => other.bid = x(0.04),
            _ => other.dte = 38,
        }
        mixed.push(other);
        mixed.push(c);
    }
    for name in ["IronCondor", "Strangle", "IronButterfly", "LongStraddle", "Backspread", "RiskReversal"] {
        let with = build(name, &mixed, 2).unwrap();
        let without = build(name, &chain(), 2).unwrap();
        assert_eq!(described(&with), described(&without));
        for (a, b) in with.legs.iter().zip(&without.legs) {
            assert_eq!(a.limit_price, b.limit_price);
        }
    }
    mixed.retain(|c| c.dte == 38 || c.open_interest == 99);
    let e = build("Strangle", &mixed, 1).unwrap_err();
    assert_eq!(e.message(), build("Strangle", &[], 1).unwrap_err().message());
}

#[test]
fn symbols_have_twenty_one_characters() {
    for (root, strike) in [("", 0.001), ("F", 1.0), ("SPXW", 5250.0), ("GOOGLE", 99_999.999)] {
        let mut c = candidate("put", strike, -0.5);
        c.root = root.to_string();
        assert_eq!(c.occ_symbol().len(), 21);
    }
    assert_eq!(candidate("put", 100_000.0, -0.5).occ_symbol().len(), 22);
}

#[test]
fn options_at_the_limits_are_taken() {
    let mut c = candidate("call", 1.0, 0.5);
    c.spread_pct = x(0.25);
    c.bid = x(0.05);
    c.open_interest = 100;
    c.dte = 37;
    assert!(closest_delta(&vec![c], x(0.5), true, 30, 7).is_some());
    let mut c = candidate("call", 1.0, 0.5);
    c.dte = 23;
    assert!(closest_delta(&vec![c], x(0.5), true, 30, 7).is_some());
}

#[test]
fn chains_that_cannot_be_searched_are_told_apart() {
    let nan = candidate("call", 1.0, f64::NAN);
    assert!(can_search(&[nan], x(0.5), true, 30, 7));
    let nan = candidate("call", 1.0, f64::NAN);
    let good = candidate("call", 2.0, 0.5);
    assert!(!can_search(&[nan, good], x(0.5), true, 30, 7));
    let mut extreme = candidate("call", 1.0, 0.5);
    extreme.dte = i32::MIN;
    assert!(!can_search(&[extreme], x(0.5), true, 30, 7));
    let mut put = candidate("put", 1.0, 0.5);
    put.dte = i32::MIN;
    assert!(can_search(&[put], x(0.5), true, 30, 7));
    let one = candidate("call", 1.0, f64::NAN);
    let alone = [one];
    assert!(closest_delta(&alone, x(0.5), true, 30, 7).is_some());
}

#[test]
fn strangles_sell_both_sides() {
    let o = build("Strangle", &chain(), 3).unwrap();
    assert_eq!(described(&o), ["Sell SPY   250117C00470000 x3", "Sell SPY   250117P00430000 x3"]);
    assert_eq!(o.strategy_id, "sid");
    assert_eq!(o.tif, TimeInForce::Day);
    assert_eq!(o.status, OrderStatus::Pending);
    assert_eq!(o.legs[0].order_type, OrderType::Limit);
    assert_eq!(o.legs[0].instrument, Instrument::EquityOption);
    assert_eq!(y(o.legs[0].limit_price.unwrap()), (1.0 + 1.2) / 2.0);
    assert_eq!(o.legs[0].stop_price, None);
    assert_eq!(y(o.vega_at_entry), -5.0);
}

#[test]
fn butterflies_sell_the_middle_and_buy_wings() {
    let o = build("IronButterfly", &chain(), 1).unwrap();
    assert_eq!(
        described(&o),
        [
            "Sell SPY   250117C00450000 x1",
            "Sell SPY   250117P00450000 x1",
            "Buy SPY   250117C00480000 x1",
            "Buy SPY   250117P00420000 x1",
        ]
    );
}

#[test]
fn long_strategies_buy() {
    let o = build("LongStraddle", &chain(), 2).unwrap();
    assert_eq!(described(&o), ["Buy SPY   250117C00450000 x2", "Buy SPY   250117P00450000 x2"]);
    let o = build("LongStrangle", &chain(), 2).unwrap();
    assert_eq!(described(&o), ["Buy SPY   250117C00460000 x2", "Buy SPY   250117P00440000 x2"]);
}

#[test]
fn backspreads_buy_two_for_one() {
    let o = build("Backspread", &chain(), 3).unwrap();
    assert_eq!(described(&o), ["Sell SPY   250117C00450000 x3", "Buy SPY   250117C00465000 x6"]);
    let o = build("Backspread", &chain(), u32::MAX).unwrap();
    assert_eq!(o.legs[1].quantity, 2 * u32::MAX as u64);
}

#[test]
fn risk_reversals_buy_the_call_and_sell_the_put() {
    let o = build("RiskReversal", &chain(), 1).unwrap();
    assert_eq!(described(&o), ["Buy SPY   250117C00465000 x1", "Sell SPY   250117P00435000 x1"]);
}

#[test]
fn condors_with_strikes_out_of_order_are_refused() {
    let turned = |calls: [f64; 2], puts: [f64; 2]| {
        vec![
            candidate("call", calls[0], 0.16),
            candidate("call", calls[1], 0.05),
            candidate("put", puts[0], -0.16),
            candidate("put", puts[1], -0.05),
        ]
    };
    let e = build("IronCondor", &turned([475.0, 470.0], [425.0, 430.0]), 1).unwrap_err();
    assert_eq!(
        e.message(),
        "IronCondor: strike ordering invalid (lc=470 sc=475 sp=425 lp=430)"
    );
    let e = build("IronCondor", &turned([475.0, 470.0], [425.0, 410.0]), 1).unwrap_err();
    assert!(matches!(e, BuildError::StrikeOrder { .. }));
    let e = build("IronCondor", &turned([475.0, 490.0], [425.0, 430.0]), 1).unwrap_err();
    assert!(matches!(e, BuildError::StrikeOrder { .. }));
    assert!(build("IronCondor", &turned([475.0, 475.0], [425.0, 425.0]), 1).is_ok());
}

#[test]
fn condors_protect_what_they_sell() {
    let cs = vec![
        candidate("call", 470.0, 0.16),
        candidate("call", 490.0, 0.05),
        candidate("put", 430.0, -0.16),
        candidate("put", 410.0, -0.05),
    ];
    let o = build("IronCondor", &cs, 1).unwrap();
    assert_eq!(
        described(&o),
        [
            "Sell SPY   250117C00470000 x1",
            "Buy SPY   250117C00490000 x1",
            "Sell SPY   250117P00430000 x1",
            "Buy SPY   250117P00410000 x1",
        ]
    );
    let o = build("IronCondor", &chain(), 2).unwrap();
    assert_eq!(
        described(&o),
        [
            "Sell SPY   250117C00475000 x2",
            "Buy SPY   250117C00490000 x2",
            "Sell SPY   250117P00425000 x2",
            "Buy SPY   250117P00410000 x2",
        ]
    );
}

#[test]
fn missing_strikes_are_reported() {
    let texts = [
        ("IronCondor", "IronCondor: could not find all 4 strikes near 30-day expiry"),
        ("Strangle", "Strangle: could not find both strikes"),
        ("IronButterfly", "IronButterfly: could not find all 4 strikes"),
        ("LongStraddle", "LongStraddle: could not find ATM strikes"),
        ("LongStrangle", "LongStrangle: could not find OTM strikes"),
        ("Backspread", "Backspread: could not find strikes"),
        ("RiskReversal", "RiskReversal: could not find 25-delta strikes"),
        ("DeltaHedge", "DeltaHedge: use futures execution path, not option chain"),
        ("DoNothing", "DoNothing: no order to build"),
        ("FuturesLong", "Unknown strategy type: FuturesLong"),
        ("Nonsense", "Unknown strategy type: Nonsense"),
    ];
    for (name, text) in texts {
        assert_eq!(build(name, &[], 1).unwrap_err().message(), text);
    }
    let calls: Vec<StrikeCandidate> = chain().into_iter().filter(|c| c.is_call()).collect();
    assert!(matches!(
        build("Strangle", &calls, 1),
        Err(BuildError::MissingStrikes { strategy: StrategyType::Strangle, target_dte: 30 })
    ));
    assert!(build("Backspread", &calls, 1).is_ok());
}

#[test]
fn expirations_that_cannot_be_cut_are_told_apart() {
    let mut cs = chain();
    for c in cs.iter_mut() {
        c.expiration = "2".to_string();
    }
    assert!(!can_build("Strangle", &cs, 30));
    assert!(can_build("DoNothing", &cs, 30));
    assert!(!can_build("IronCondor", &cs, 30));
    for c in cs.iter_mut() {
        c.expiration = "€1".to_string();
    }
    assert!(!can_build("Strangle", &cs, 30));
    for c in cs.iter_mut() {
        c.expiration = "é1".to_string();
    }
    assert_eq!(build("Strangle", &cs, 1).unwrap().legs[0].symbol, "SPY   1C00470000");
}

#[test]
fn target_days_wrap_like_signed_numbers() {
    let mut c = candidate("call", 1.0, 0.5);
    c.dte = -3;
    assert!(closest_delta(&vec![c], x(0.5), true, u32::MAX, 7).is_some());
}

#[test]
fn single_legs() {
    let b = buy_leg(&candidate("call", 450.0, 0.5), 4);
    assert_eq!((b.side, b.quantity), (OrderSide::Buy, 4));
    let s = sell_leg(&candidate("call", 450.0, 0.5), 4);
    assert_eq!((s.side, s.quantity), (OrderSide::Sell, 4));
    assert_eq!(b.symbol, s.symbol);
}

fn leg_at(instrument: Instrument, side: OrderSide, quantity: u64, price: Option<f64>) -> OrderLeg {
    OrderLeg {
        instrument,
        symbol: "S".to_string(),
        side,
        quantity,
        order_type: OrderType::Limit,
        limit_price: price.map(x),
        stop_price: None,
    }
}

fn order_of(legs: Vec<OrderLeg>) -> Order {
    Order::new("s", legs, TimeInForce::Day, entry())
}

#[test]
fn debits_are_needed_in_full() {
    let o = order_of(vec![
        leg_at(Instrument::EquityOption, OrderSide::Buy, 2, Some(1.5)),
        leg_at(Instrument::EquityOption, OrderSide::Sell, 2, Some(0.5)),
    ]);
    assert_eq!(y(required_capital(&o)), 200.0);
}

#[test]
fn twice_the_credit_is_set_aside() {
    let o = order_of(vec![leg_at(Instrument::EquityOption, OrderSide::Sell, 3, Some(1.25))]);
    assert_eq!(y(required_capital(&o)), 750.0);
}

#[test]
fn the_other_side_of_a_debit_needs_twice_as_much() {
    let legs = |first: OrderSide, second: OrderSide| {
        vec![
            leg_at(Instrument::EquityOption, first, 2, Some(1.3)),
            leg_at(Instrument::EquityOption, second, 1, Some(0.7)),
        ]
    };
    let debit = y(required_capital(&order_of(legs(OrderSide::Buy, OrderSide::Sell))));
    let credit = y(required_capital(&order_of(legs(OrderSide::Sell, OrderSide::Buy))));
    assert_eq!(debit, 1.3 * 2.0 * 100.0 - 0.7 * 100.0);
    assert_eq!(credit, 2.0 * debit);
    assert!(debit > 0.0);
}

#[test]
fn futures_have_no_multiplier() {
    let o = order_of(vec![leg_at(Instrument::Future, OrderSide::Buy, 2, Some(10.0))]);
    assert_eq!(y(required_capital(&o)), 20.0);
    let o = order_of(vec![
        leg_at(Instrument::EquityOption, OrderSide::Buy, 1, Some(1.0)),
        leg_at(Instrument::FutureOption, OrderSide::Buy, 1, Some(1.0)),
    ]);
    assert_eq!(y(required_capital(&o)), 2.0);
}

#[test]
fn legs_without_a_price_cost_nothing() {
    let o = order_of(vec![leg_at(Instrument::EquityOption, OrderSide::Buy, 2, None)]);
    assert_eq!(y(required_capital(&o)), 0.0);
    assert_eq!(y(required_capital(&order_of(vec![]))), 0.0);
}

#[test]
fn greeks_of_a_trade_are_estimated() {
    let cs = chain();
    assert!(can_estimate("Strangle", &cs, 30));
    let g = estimate_order_greeks("Strangle", &cs, 2, 30);
    assert_eq!(y(g.delta), 0.0 + -1.0 * 0.20 * 200.0 + -1.0 * -0.20 * 200.0);
    assert_eq!(y(g.gamma), 0.0 + -1.0 * 0.02 * 200.0 + -1.0 * 0.02 * 200.0);
    assert_eq!(y(g.vega), 0.0 + -1.0 * 0.1 * 200.0 + -1.0 * 0.1 * 200.0);
    assert_eq!(y(g.theta), 0.0 + -1.0 * -0.05 * 200.0 + -1.0 * -0.05 * 200.0);
    let g = estimate_order_greeks("RiskReversal", &cs, 1, 30);
    assert_eq!(y(g.delta), 0.0 + 1.0 * 0.25 * 100.0 + -1.0 * -0.25 * 100.0);
}

#[test]
fn greeks_of_other_trades_are_zero() {
    for name in ["IronButterfly", "Backspread", "DoNothing", "zzz"] {
        let g = estimate_order_greeks(name, &chain(), 2, 30);
        assert_eq!((y(g.delta), y(g.gamma), y(g.vega), y(g.theta)), (0.0, 0.0, 0.0, 0.0));
    }
    let none = estimate_order_greeks("IronCondor", &[], 1, 30);
    assert_eq!(y(none.delta), 0.0);
    let nan = vec![candidate("call", 1.0, f64::NAN), candidate("call", 2.0, 0.2)];
    assert!(!can_estimate("Strangle", &nan, 30));
    assert!(can_estimate("Backspread", &nan, 30));
}

// ── Decisions ───────────────────────────────────────────────────────────────

fn decision(strategy: &str, contracts: u32, sizing: Option<f64>) -> StrategyDecision {
    StrategyDecision {
        approved: true,
        strategy_type: strategy.to_string(),
        contracts,
        target_delta: x(0.0),
        target_vega: x(0.0),
        target_dte: 30,
        entry_urgency: "patient".to_string(),
        reasoning: "r".to_string(),
        confidence: x(0.9),
        macro_concerns: None,
        sizing_adjustment: sizing.map(x),
        conditional_trigger: None,
    }
}

fn sized(contracts: u32, sizing: Option<f64>, limit: u32) -> u32 {
    match validate_llm_decision(decision("Strangle", contracts, sizing), limit) {
        Ok(v) => v.contracts(),
        Err(e) => panic!("{}", e.message()),
    }
}

#[test]
fn sizing_multiplies_and_never_exceeds_the_proposal() {
    assert_eq!(sized(4, None, 4), 4);
    assert_eq!(sized(4, Some(0.5), 4), 2);
    assert_eq!(sized(3, Some(0.5), 4), 1);
    assert_eq!(sized(4, Some(2.0), 4), 4);
    assert_eq!(sized(4, Some(2.0), 10), 8);
    assert_eq!(sized(4, Some(0.0), 4), 0);
    assert_eq!(sized(0, None, 4), 0);
}

fn refused(d: StrategyDecision, limit: u32) -> DecisionError {
    match validate_llm_decision(d, limit) {
        Ok(_) => panic!("accepted"),
        Err(e) => e,
    }
}

#[test]
fn decisions_outside_the_schema_are_refused() {
    let e = refused(decision("Nope", 1, None), 4);
    assert!(matches!(e, DecisionError::UnknownStrategy(_)));
    assert_eq!(e.message(), "unknown strategy type: Nope");
    let mut d = decision("Strangle", 1, None);
    d.entry_urgency = "soon".to_string();
    let e = refused(d, 4);
    assert!(matches!(e, DecisionError::UnknownUrgency(_)));
    assert_eq!(e.message(), "unknown entry urgency: soon");
    for c in [-0.1, 1.1, f64::NAN] {
        let mut d = decision("Strangle", 1, None);
        d.confidence = x(c);
        assert!(matches!(refused(d, 4), DecisionError::Confidence(_)));
    }
    let mut d = decision("Strangle", 1, None);
    d.confidence = x(1.5);
    assert_eq!(refused(d, 4).message(), "confidence out of range: 1.500");
    let mut d = decision("Strangle", 1, None);
    d.target_dte = 0;
    let e = refused(d, 4);
    assert!(matches!(e, DecisionError::NoDays));
    assert_eq!(e.message(), "target_dte must be at least 1");
    let e = refused(decision("Strangle", 1, Some(2.5)), 4);
    assert!(matches!(e, DecisionError::Sizing(_)));
    assert_eq!(e.message(), "sizing_adjustment out of range: 2.500");
    let e = refused(decision("Strangle", 5, None), 4);
    assert!(matches!(e, DecisionError::TooManyContracts { contracts: 5, limit: 4 }));
    assert_eq!(e.message(), "contracts 5 exceed the proposed 4");
}

#[test]
fn decisions_at_the_bounds_are_accepted() {
    for c in [0.0, 1.0] {
        let mut d = decision("Strangle", 4, Some(0.0));
        d.confidence = x(c);
        assert!(validate_llm_decision(d, 4).is_ok());
    }
    for u in ["immediate", "patient", "conditional"] {
        let mut d = decision("FuturesLong", 4, Some(2.0));
        d.entry_urgency = u.to_string();
        d.target_dte = 1;
        assert!(validate_llm_decision(d, 4).is_ok());
    }
}

fn plan(d: StrategyDecision, available: f64) -> Action {
    let v = ValidatedDecision::from_rule_engine(d);
    let cs = chain();
    assert!(can_plan(&v, &cs));
    plan_action(&v, &cs, entry(), x(available), "sid")
}

fn skipped(a: Action) -> String {
    match a {
        Action::Skip { reason } => reason,
        Action::Submit(_) => panic!("submitted"),
    }
}

#[test]
fn plans_skip_what_is_not_to_be_traded() {
    let mut d = decision("Strangle", 1, None);
    d.approved = false;
    assert_eq!(skipped(plan(d, 1e6)), "not_approved");
    assert_eq!(skipped(plan(decision("Strangle", 0, None), 1e6)), "zero_contracts");
    assert_eq!(skipped(plan(decision("DoNothing", 1, None), 1e6)), "DoNothing: no order to build");
    let needed = 2.0 * (2.0 * 1.1 * 100.0);
    assert_eq!(
        skipped(plan(decision("Strangle", 1, None), 439.0)),
        format!("insufficient_capital: need {needed:.2}, have 439.00")
    );
}

#[test]
fn plans_submit_what_can_be_paid_for() {
    match plan(decision("LongStraddle", 1, None), 221.0) {
        Action::Submit(o) => {
            assert_eq!(o.strategy_id, "sid");
            assert_eq!(o.legs.len(), 2);
            assert_eq!(y(o.theta_at_entry), 2.0);
        }
        Action::Skip { reason } => panic!("{reason}"),
    }
}

#[test]
fn broken_chains_are_noticed_before_planning() {
    let v = ValidatedDecision::from_rule_engine(decision("Strangle", 1, None));
    let cs = vec![candidate("call", 1.0, f64::NAN), candidate("call", 2.0, 0.2)];
    assert!(!can_plan(&v, &cs));
    let mut d = decision("Strangle", 1, None);
    d.approved = false;
    assert!(can_plan(&ValidatedDecision::from_rule_engine(d), &cs));
    assert_eq!(v.inner().strategy_type, "Strangle");
}
