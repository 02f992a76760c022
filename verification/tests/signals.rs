use zeta_executor::agent::decision::StrategyDecision;
use zeta_executor::agent::RuleProposal;
use zeta_executor::execution::StrikeCandidate;
use zeta_executor::ipc::{Received, RuleProposalMsg, ZetaReceiver, ZetaSignal};
use zeta_executor::num::double::Double;
use zeta_executor::orders::persistence::OmsEvent;
use zeta_executor::orders::{Order, OrderStatus};
use zeta_executor::signal::{
    request_key_text, rule_engine_decision, signal_request_hash, Effect, Outcome, SignalFlow,
};

fn n(v: f64) -> Double {
    Double::from_bits(v.to_bits())
}

fn option(right: &str, strike: f64, delta: f64) -> StrikeCandidate {
    StrikeCandidate {
        root: "SPY".to_string(),
        expiration: "20250117".to_string(),
        strike: n(strike),
        right: right.to_string(),
        dte: 30,
        delta: n(delta),
        gamma: n(0.02),
        theta: n(-0.05),
        vega: n(0.1),
        implied_vol: n(0.2),
        bid: n(1.0),
        ask: n(1.2),
        mid: n(1.1),
        bid_size: 10,
        ask_size: 10,
        underlying_price: n(450.0),
        open_interest: 500,
        spread_pct: n(0.1),
    }
}

fn message(strategy: &str, contracts: u32) -> RuleProposalMsg {
    RuleProposalMsg {
        strategy_type: strategy.to_string(),
        contracts,
        max_risk_dollars: n(1000.0),
        est_delta: n(0.1),
        est_vega: n(-5.0),
        est_theta_day: n(2.0),
        target_dte: 30,
        entry_urgency: "patient".to_string(),
        rationale: "why".to_string(),
        passes_limits: true,
        limit_violations: vec![],
    }
}

fn signal(strategy: &str, needs_llm: bool) -> ZetaSignal {
    ZetaSignal {
        timestamp: "t".to_string(),
        symbol: "SPY".to_string(),
        zeta_context: "ctx".to_string(),
        needs_llm,
        llm_questions: vec!["q?".to_string()],
        proposal: message(strategy, 4),
        chain_candidates: vec![option("call", 450.0, 0.5), option("put", 450.0, -0.5)],
    }
}

fn answer(approved: bool, contracts: u32, sizing: Option<f64>) -> StrategyDecision {
    StrategyDecision {
        approved,
        strategy_type: "LongStraddle".to_string(),
        contracts,
        target_delta: n(0.0),
        target_vega: n(0.0),
        target_dte: 30,
        entry_urgency: "immediate".to_string(),
        reasoning: "because".to_string(),
        confidence: n(0.6),
        macro_concerns: None,
        sizing_adjustment: sizing.map(n),
        conditional_trigger: None,
    }
}

fn appended(e: Effect) -> OmsEvent {
    match e {
        Effect::Append(ev) => ev,
        _ => panic!("no event"),
    }
}

fn planned(e: OmsEvent) -> (String, String, String) {
    match e {
        OmsEvent::ActionPlanned { signal_id, action, detail, .. } => (signal_id, action, detail),
        other => panic!("{other:?}"),
    }
}

fn sent(e: Effect) -> Order {
    match e {
        Effect::SubmitToBroker(o) => o,
        _ => panic!("nothing sent"),
    }
}

fn hex_form(id: u128) -> String {
    let h = format!("{id:032x}");
    format!("{}-{}-{}-{}-{}", &h[..8], &h[8..12], &h[12..16], &h[16..20], &h[20..])
}

#[test]
fn clear_decisions_echo_the_proposal() {
    let d = rule_engine_decision(&message("Strangle", 3));
    assert!(d.approved);
    assert_eq!((d.strategy_type.as_str(), d.contracts, d.target_dte), ("Strangle", 3, 30));
    assert_eq!(d.target_delta, n(0.1));
    assert_eq!(d.target_vega, n(-5.0));
    assert_eq!(d.entry_urgency, "patient");
    assert_eq!(d.reasoning, "Rule engine clear signal — no LLM review needed.");
    assert_eq!(d.confidence, n(0.85));
    assert_eq!(d.sizing_adjustment, None);
    assert!(d.macro_concerns.is_none() && d.conditional_trigger.is_none());
}

#[test]
fn hashes_depend_on_what_is_asked() {
    let a = signal("Strangle", true);
    assert_eq!(request_key_text(&a), "ctx|Strangle|4");
    let mut b = signal("Strangle", false);
    b.symbol = "QQQ".to_string();
    assert_eq!(signal_request_hash(&a), signal_request_hash(&b));
    let mut c = signal("Strangle", true);
    c.proposal.contracts = 5;
    assert_ne!(signal_request_hash(&a), signal_request_hash(&c));
    let want = uuid::Uuid::new_v5(&uuid::Uuid::NAMESPACE_OID, b"ctx|Strangle|4").to_string();
    assert_eq!(signal_request_hash(&a), want);
}

#[test]
fn hashes_are_name_based_identifiers() {
    let h = signal_request_hash(&signal("Strangle", true));
    assert_eq!(h.len(), 36);
    assert_eq!(&h[14..15], "5");
}

#[test]
fn proposals_lose_their_limits_for_the_model() {
    let p = RuleProposal::from(message("Strangle", 3));
    assert_eq!((p.strategy_type.as_str(), p.contracts, p.rationale.as_str()), ("Strangle", 3, "why"));
    let copy = message("Strangle", 3).clone();
    assert!(copy.passes_limits);
}

#[test]
fn a_clear_signal_runs_through() {
    let (flow, e) = SignalFlow::start(signal("LongStraddle", false));
    let id = match appended(e) {
        OmsEvent::SignalReceived { signal_id, symbol, strategy_type, needs_llm, zeta_context_preview, .. } => {
            assert_eq!((symbol.as_str(), strategy_type.as_str(), needs_llm), ("SPY", "LongStraddle", false));
            assert_eq!(zeta_context_preview, "ctx");
            signal_id
        }
        other => panic!("{other:?}"),
    };
    let (flow, e) = flow.advance(Outcome::Done);
    match appended(e) {
        OmsEvent::DecisionMade { signal_id, source, request_hash, approved, confidence, .. } => {
            assert_eq!((signal_id.as_str(), source.as_str(), approved), (id.as_str(), "rule_engine", true));
            assert_eq!(request_hash, signal_request_hash(&signal("LongStraddle", false)));
            assert_eq!(confidence, n(0.85));
        }
        other => panic!("{other:?}"),
    }
    let (flow, e) = flow.advance(Outcome::Done);
    assert!(matches!(e, Effect::AskBuyingPower));
    let (flow, e) = flow.advance(Outcome::Power(Some(n(5000.0))));
    let (sid, action, detail) = planned(appended(e));
    assert_eq!((sid.as_str(), action.as_str()), (id.as_str(), "Submit"));
    let (flow, e) = flow.advance(Outcome::Done);
    let o = sent(e);
    assert_eq!(detail, hex_form(o.id));
    assert_eq!(o.status, OrderStatus::Pending);
    assert_eq!(o.legs[0].quantity, 4);
    assert_eq!((o.delta_at_entry, o.gamma_at_entry), (n(0.1), n(0.0)));
    assert_eq!((o.vega_at_entry, o.theta_at_entry), (n(-5.0), n(2.0)));
    assert_eq!(o.strategy_id.len(), 36);
    let (flow, e) = flow.advance(Outcome::Accepted("B1".to_string()));
    match e {
        Effect::Stage(s) => {
            assert_eq!(s.id, o.id);
            assert_eq!(s.status, OrderStatus::Submitted);
            assert_eq!(s.broker_id, Some("B1".to_string()));
        }
        _ => panic!("not staged"),
    }
    let (flow, e) = flow.advance(Outcome::Done);
    match appended(e) {
        OmsEvent::OrderSubmitted { order, .. } => {
            assert_eq!(order.id, o.id);
            assert_eq!(order.broker_id, Some("B1".to_string()));
        }
        other => panic!("{other:?}"),
    }
    let (flow, e) = flow.advance(Outcome::Done);
    assert!(matches!(e, Effect::Finish));
    let (_, e) = flow.advance(Outcome::Done);
    assert!(matches!(e, Effect::Finish));
}

#[test]
fn an_ambiguous_signal_is_put_to_the_model() {
    let (flow, _) = SignalFlow::start(signal("Strangle", true));
    let (flow, e) = flow.advance(Outcome::Done);
    match e {
        Effect::Consult { zeta_context, questions, proposal } => {
            assert_eq!(zeta_context, "ctx");
            assert_eq!(questions, vec!["q?".to_string()]);
            assert_eq!(proposal.strategy_type, "Strangle");
        }
        _ => panic!("not asked"),
    }
    let (flow, e) = flow.advance(Outcome::Answer(answer(true, 4, Some(0.5))));
    match appended(e) {
        OmsEvent::DecisionMade { source, reasoning, sizing_adjustment, .. } => {
            assert_eq!((source.as_str(), reasoning.as_str()), ("llm", "because"));
            assert_eq!(sizing_adjustment, Some(n(0.5)));
        }
        other => panic!("{other:?}"),
    }
    let (flow, _) = flow.advance(Outcome::Done);
    let (flow, _) = flow.advance(Outcome::Power(Some(n(5000.0))));
    let (_, e) = flow.advance(Outcome::Done);
    assert_eq!(sent(e).legs[0].quantity, 2);
}

#[test]
fn answers_that_break_the_schema_are_skipped() {
    let (flow, _) = SignalFlow::start(signal("Strangle", true));
    let (flow, _) = flow.advance(Outcome::Done);
    let (flow, e) = flow.advance(Outcome::Answer(answer(true, 9, None)));
    let (_, action, detail) = planned(appended(e));
    assert_eq!(action, "Skip");
    assert_eq!(detail, "llm_validation_failed: contracts 9 exceed the proposed 4");
    let (_, e) = flow.advance(Outcome::Done);
    assert!(matches!(e, Effect::Finish));
}

#[test]
fn hard_limits_are_a_veto() {
    for needs_llm in [false, true] {
        let mut s = signal("LongStraddle", needs_llm);
        s.proposal.passes_limits = false;
        s.proposal.limit_violations = vec!["max delta".to_string(), "max vega".to_string()];
        let (flow, _) = SignalFlow::start(s);
        let (flow, e) = flow.advance(Outcome::Done);
        let (_, action, detail) = planned(appended(e));
        assert_eq!((action.as_str(), detail.as_str()), ("Skip", "hard_limits: max delta; max vega"));
        let (_, e) = flow.advance(Outcome::Done);
        assert!(matches!(e, Effect::Finish));
    }
}

#[test]
fn unapproved_decisions_are_skipped() {
    let (flow, _) = SignalFlow::start(signal("Strangle", true));
    let (flow, _) = flow.advance(Outcome::Done);
    let (flow, _) = flow.advance(Outcome::Answer(answer(false, 4, None)));
    let (flow, _) = flow.advance(Outcome::Done);
    let (_, e) = flow.advance(Outcome::Power(Some(n(5000.0))));
    assert_eq!(planned(appended(e)).2, "not_approved");
}

#[test]
fn unknown_buying_power_counts_as_none() {
    let (flow, _) = SignalFlow::start(signal("LongStraddle", false));
    let (flow, _) = flow.advance(Outcome::Done);
    let (flow, _) = flow.advance(Outcome::Done);
    let (_, e) = flow.advance(Outcome::Power(None));
    let detail = planned(appended(e)).2;
    let needed = 1.1f64 * 4.0 * 100.0 + 1.1 * 4.0 * 100.0;
    assert_eq!(detail, format!("insufficient_capital: need {needed:.2}, have 0.00"));
}

#[test]
fn refused_orders_are_not_held() {
    let (flow, _) = SignalFlow::start(signal("LongStraddle", false));
    let (flow, _) = flow.advance(Outcome::Done);
    let (flow, _) = flow.advance(Outcome::Done);
    let (flow, _) = flow.advance(Outcome::Power(Some(n(5000.0))));
    let (flow, _) = flow.advance(Outcome::Done);
    let (_, e) = flow.advance(Outcome::Refused);
    assert!(matches!(e, Effect::Finish));
}

#[test]
fn failures_end_the_flow() {
    let (flow, _) = SignalFlow::start(signal("LongStraddle", false));
    let (flow, e) = flow.advance(Outcome::Failed);
    assert!(matches!(e, Effect::Finish));
    let (_, e) = flow.advance(Outcome::Accepted("x".to_string()));
    assert!(matches!(e, Effect::Finish));
}

#[test]
fn outcomes_that_were_not_asked_for_end_the_flow() {
    let (flow, _) = SignalFlow::start(signal("LongStraddle", false));
    let (flow, e) = flow.advance(Outcome::Accepted("x".to_string()));
    assert!(matches!(e, Effect::Finish));
    let (_, e) = flow.advance(Outcome::Done);
    assert!(matches!(e, Effect::Finish));
}

#[test]
fn broken_chains_abort() {
    let mut s = signal("LongStraddle", false);
    s.chain_candidates = vec![option("call", 1.0, f64::NAN), option("call", 2.0, 0.5), option("put", 1.0, -0.5)];
    let (flow, _) = SignalFlow::start(s);
    let (flow, _) = flow.advance(Outcome::Done);
    let (flow, _) = flow.advance(Outcome::Done);
    let (_, e) = flow.advance(Outcome::Power(Some(n(5000.0))));
    assert!(matches!(e, Effect::Abort));
}

// ── Receiving ───────────────────────────────────────────────────────────────

#[test]
fn frames_are_put_together() {
    let frames = vec![b"{\"symbol\":".to_vec(), vec![], b"\"SPY\"}".to_vec()];
    match ZetaReceiver::run(Some(frames)) {
        Received::Signal(s) => assert_eq!(s, "{\"symbol\":\"SPY\"}"),
        other => panic!("{other:?}"),
    }
}

#[test]
fn characters_may_span_frames() {
    let frames = vec![vec![0xc3], vec![0xa9]];
    match ZetaReceiver::run(Some(frames)) {
        Received::Signal(s) => assert_eq!(s, "é"),
        other => panic!("{other:?}"),
    }
}

#[test]
fn heartbeats_are_recognised() {
    let frames = vec![b"{\"type\":\"heartbeat\",\"ts\":\"x\"}".to_vec()];
    assert!(matches!(ZetaReceiver::run(Some(frames)), Received::Heartbeat(_)));
}

#[test]
fn what_is_not_text_is_dropped() {
    assert!(matches!(ZetaReceiver::run(Some(vec![vec![0xff, 0x00]])), Received::NotText));
}

#[test]
fn failed_receives_wait() {
    assert!(matches!(ZetaReceiver::run(None), Received::Wait { millis: 100 }));
    let r = ZetaReceiver::new("ipc:///tmp/zeta.sock".to_string());
    assert_eq!(r.endpoint(), "ipc:///tmp/zeta.sock");
}
