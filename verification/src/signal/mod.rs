//! What happens to a signal, from its arrival to the order at the broker.
//!
//! [`SignalFlow`] decides; whoever runs it performs one [`Effect`] at a time and reports the
//! [`Outcome`]. Every step that matters is recorded before the next one is taken.

pub mod flow_laws;
pub mod laws;

use crate::agent::decision::{DecisionView, StrategyDecision};
use crate::agent::RuleProposal;
use crate::execution::plan::{
    can_plan, decision_fault, plan_action, plannable, planned, sized_contracts,
    validate_llm_decision, Action, Plan, ValidatedDecision,
};
use crate::ipc::{reviewed_part, RuleProposalMsg, ZetaSignal};
use crate::num::double::{or_zero, value_or_zero, Double};
use crate::orders::persistence::{
    ev_action_planned, ev_decision_made, ev_signal_received, ev_submitted, EventView, OmsEvent,
    PREVIEW,
};
use crate::orders::{new_order, EntryGreeks, LegView, Order, OrderStatus, OrderView, TimeInForce};
use crate::outside::{
    fresh_uuid, name_uuid, random_id, uuid_text, uuid_to_text, uuid_v5, NAMESPACE_OID,
};
use crate::text;
use crate::text::{decimal, head, joined, texts};
use vstd::prelude::*;
use vstd::utf8::encode_utf8;

verus! {

// ── Decisions without a review ──────────────────────────────────────────────

/// The decision about a proposal that needs no review: to do what is proposed.
pub open spec fn clear_decision(p: RuleProposalMsg) -> DecisionView {
    DecisionView {
        approved: true,
        strategy_type: p.strategy_type@,
        contracts: p.contracts,
        target_delta: p.est_delta,
        target_vega: p.est_vega,
        target_dte: p.target_dte,
        entry_urgency: p.entry_urgency@,
        reasoning: "Rule engine clear signal — no LLM review needed."@,
        confidence: Double::percent(85),
        macro_concerns: None,
        sizing_adjustment: None,
        conditional_trigger: None,
    }
}

pub fn rule_engine_decision(p: &RuleProposalMsg) -> (r: StrategyDecision)
    ensures
        r@ == clear_decision(*p),
{
    StrategyDecision {
        approved: true,
        strategy_type: p.strategy_type.clone(),
        contracts: p.contracts,
        target_delta: p.est_delta,
        target_vega: p.est_vega,
        target_dte: p.target_dte,
        entry_urgency: p.entry_urgency.clone(),
        reasoning: "Rule engine clear signal — no LLM review needed.".to_string(),
        confidence: Double::hundredths(85),
        macro_concerns: None,
        sizing_adjustment: None,
        conditional_trigger: None,
    }
}

// ── Identity of a request ───────────────────────────────────────────────────

/// What two signals must share to ask for the same decision.
pub open spec fn request_key(signal: ZetaSignal) -> Seq<char> {
    signal.zeta_context@ + "|"@ + signal.proposal.strategy_type@ + "|"@ + decimal(
        signal.proposal.contracts as nat,
    )
}

pub fn request_key_text(signal: &ZetaSignal) -> (r: String)
    ensures
        r@ == request_key(*signal),
{
    let mut out: String = signal.zeta_context.clone();
    out.append("|");
    out.append(signal.proposal.strategy_type.as_str());
    out.append("|");
    text::push_decimal(&mut out, signal.proposal.contracts as u128);
    out
}

/// The hash of what a signal asks for.
pub open spec fn request_hash(signal: ZetaSignal) -> Seq<char> {
    uuid_text(uuid_v5(NAMESPACE_OID, encode_utf8(request_key(signal))))
}

/// A hash of what a signal asks for: the same market state and proposal have the same hash.
pub fn signal_request_hash(signal: &ZetaSignal) -> (r: String)
    ensures
        r@ == request_hash(*signal),
{
    let key: String = request_key_text(signal);
    uuid_to_text(name_uuid(NAMESPACE_OID, key.as_str().as_bytes()))
}

/// Signals with the same market description, strategy and contracts have the same hash.
pub proof fn law_equal_requests_share_a_hash(a: ZetaSignal, b: ZetaSignal)
    requires
        a.zeta_context@ == b.zeta_context@,
        a.proposal.strategy_type@ == b.proposal.strategy_type@,
        a.proposal.contracts == b.proposal.contracts,
    ensures
        request_hash(a) == request_hash(b),
{
}

// ── The flow ────────────────────────────────────────────────────────────────

/// How far a signal has come.
pub enum Phase {
    /// Its arrival is being recorded.
    Noted,
    /// The model is being asked.
    Asking,
    /// The decision is being recorded.
    Decided(ValidatedDecision),
    /// The broker is being asked for the buying power.
    Weighing(ValidatedDecision),
    /// That the order will be submitted is being recorded.
    Planned(Order),
    /// The order is being sent to the broker.
    Sending(Order),
    /// The order that the broker accepted is being held.
    Staging(Order),
    /// The last event is being recorded.
    Closing,
    Over,
}

/// What a phase says.
pub enum PhaseView {
    Noted,
    Asking,
    Decided(DecisionView, u32),
    Weighing(DecisionView, u32),
    Planned(OrderView),
    Sending(OrderView),
    Staging(OrderView),
    Closing,
    Over,
}

impl View for Phase {
    type V = PhaseView;

    open spec fn view(&self) -> PhaseView {
        match self {
            Phase::Noted => PhaseView::Noted,
            Phase::Asking => PhaseView::Asking,
            Phase::Decided(v) => PhaseView::Decided(v.decided(), v.count()),
            Phase::Weighing(v) => PhaseView::Weighing(v.decided(), v.count()),
            Phase::Planned(o) => PhaseView::Planned(o@),
            Phase::Sending(o) => PhaseView::Sending(o@),
            Phase::Staging(o) => PhaseView::Staging(o@),
            Phase::Closing => PhaseView::Closing,
            Phase::Over => PhaseView::Over,
        }
    }
}

/// What has become of the last effect.
pub enum Outcome {
    /// It was performed.
    Done,
    /// It failed, and the signal is given up.
    Failed,
    /// The model has decided.
    Answer(StrategyDecision),
    /// The buying power, if the broker told it.
    Power(Option<Double>),
    /// The broker accepted the order, under this name.
    Accepted(String),
    /// The broker did not accept the order.
    Refused,
}

/// What an outcome says.
pub enum OutcomeView {
    Done,
    Failed,
    Answer(DecisionView),
    Power(Option<Double>),
    Accepted(Seq<char>),
    Refused,
}

impl View for Outcome {
    type V = OutcomeView;

    open spec fn view(&self) -> OutcomeView {
        match self {
            Outcome::Done => OutcomeView::Done,
            Outcome::Failed => OutcomeView::Failed,
            Outcome::Answer(d) => OutcomeView::Answer(d@),
            Outcome::Power(p) => OutcomeView::Power(*p),
            Outcome::Accepted(id) => OutcomeView::Accepted(id@),
            Outcome::Refused => OutcomeView::Refused,
        }
    }
}

/// What to do next.
pub enum Effect {
    /// Append an event to the record.
    Append(OmsEvent),
    /// Ask the model about the trade.
    Consult { zeta_context: String, questions: Vec<String>, proposal: RuleProposal },
    /// Ask the broker for the buying power.
    AskBuyingPower,
    /// Send an order to the broker.
    SubmitToBroker(Order),
    /// Hold an order in the order management system.
    Stage(Order),
    /// Nothing is left to do.
    Finish,
    /// The option chain cannot be searched: the signal is broken.
    Abort,
}

/// What an effect says.
pub enum EffectView {
    Append(EventView),
    Consult {
        zeta_context: Seq<char>,
        questions: Seq<Seq<char>>,
        proposal: crate::agent::ProposalView,
    },
    AskBuyingPower,
    SubmitToBroker(OrderView),
    Stage(OrderView),
    Finish,
    Abort,
}

impl View for Effect {
    type V = EffectView;

    open spec fn view(&self) -> EffectView {
        match self {
            Effect::Append(e) => EffectView::Append(e@),
            Effect::Consult { zeta_context, questions, proposal } => EffectView::Consult {
                zeta_context: zeta_context@,
                questions: texts(questions@),
                proposal: proposal@,
            },
            Effect::AskBuyingPower => EffectView::AskBuyingPower,
            Effect::SubmitToBroker(o) => EffectView::SubmitToBroker(o@),
            Effect::Stage(o) => EffectView::Stage(o@),
            Effect::Finish => EffectView::Finish,
            Effect::Abort => EffectView::Abort,
        }
    }
}

/// A signal on its way.
pub struct SignalFlow {
    signal: ZetaSignal,
    signal_id: String,
    phase: Phase,
}

/// What a flow says.
pub struct FlowView {
    pub signal: ZetaSignal,
    pub signal_id: Seq<char>,
    pub phase: PhaseView,
}

impl FlowView {
    /// The flow in another phase.
    pub open spec fn at(self, phase: PhaseView) -> FlowView {
        FlowView { phase, ..self }
    }
}

/// The event that records the arrival of a signal.
pub open spec fn arrival(signal: ZetaSignal, signal_id: Seq<char>, ts: Seq<char>) -> EventView {
    EventView::SignalReceived {
        ts,
        signal_id,
        symbol: signal.symbol@,
        strategy_type: signal.proposal.strategy_type@,
        needs_llm: signal.needs_llm,
        zeta_context_preview: head(signal.zeta_context@, PREVIEW as int),
    }
}

/// The event that records a decision.
pub open spec fn decision_record(
    f: FlowView,
    source: Seq<char>,
    d: DecisionView,
    ts: Seq<char>,
) -> EventView {
    EventView::DecisionMade {
        ts,
        signal_id: f.signal_id,
        source,
        request_hash: request_hash(f.signal),
        approved: d.approved,
        reasoning: d.reasoning,
        confidence: d.confidence,
        sizing_adjustment: d.sizing_adjustment,
    }
}

/// The event that records what will be done.
pub open spec fn action_record(
    f: FlowView,
    action: Seq<char>,
    detail: Seq<char>,
    ts: Seq<char>,
) -> EventView {
    EventView::ActionPlanned { ts, signal_id: f.signal_id, action, detail }
}

/// Why a trade that breaks the hard limits is not made.
pub open spec fn limits_reason(p: RuleProposalMsg) -> Seq<char> {
    "hard_limits: "@ + joined(texts(p.limit_violations@), "; "@)
}

/// The Greeks that an order is recorded with: those that the rule engine expects.
pub open spec fn entry_greeks(p: RuleProposalMsg) -> EntryGreeks {
    EntryGreeks {
        delta: p.est_delta,
        gamma: Double::of(false, 0),
        vega: p.est_vega,
        theta: p.est_theta_day,
    }
}

/// An order as it is once the broker has accepted it.
pub open spec fn accepted_order(o: OrderView, broker_id: Seq<char>) -> OrderView {
    OrderView { broker_id: Some(broker_id), status: OrderStatus::Submitted, ..o }
}

/// Whether a flow may start like this: with the record of the arrival, under a new identifier.
pub open spec fn started(signal: ZetaSignal, f: FlowView, effect: EffectView) -> bool {
    &&& f.signal == signal
    &&& f.phase == PhaseView::Noted
    &&& exists|id: u128| random_id(id) && f.signal_id == #[trigger] uuid_text(id)
    &&& effect matches EffectView::Append(e) && e == arrival(signal, f.signal_id, e.stamp())
}

/// Whether a decision has been taken and is recorded next.
pub open spec fn decides(
    pre: FlowView,
    source: Seq<char>,
    d: DecisionView,
    contracts: u32,
    post: FlowView,
    effect: EffectView,
) -> bool {
    &&& post == pre.at(PhaseView::Decided(d, contracts))
    &&& effect matches EffectView::Append(e) && e == decision_record(pre, source, d, e.stamp())
}

/// Whether nothing is done about the signal, and the reason is recorded next.
pub open spec fn skips(
    pre: FlowView,
    reason: Seq<char>,
    post: FlowView,
    effect: EffectView,
) -> bool {
    &&& post == pre.at(PhaseView::Closing)
    &&& effect matches EffectView::Append(e) && e == action_record(
        pre,
        "Skip"@,
        reason,
        e.stamp(),
    )
}

/// Whether a new order with the given legs is planned, and that is recorded next.
pub open spec fn plans_order(
    pre: FlowView,
    legs: Seq<LegView>,
    post: FlowView,
    effect: EffectView,
) -> bool {
    &&& post.phase matches PhaseView::Planned(o) && {
        &&& o == new_order(
            o.id,
            o.created_at,
            o.strategy_id,
            legs,
            TimeInForce::Day,
            entry_greeks(pre.signal.proposal),
        )
        &&& random_id(o.id)
        &&& exists|id: u128| random_id(id) && o.strategy_id == #[trigger] uuid_text(id)
        &&& effect matches EffectView::Append(e) && e == action_record(
            pre,
            "Submit"@,
            uuid_text(o.id),
            e.stamp(),
        )
    }
    &&& post == pre.at(post.phase)
}

/// Whether a flow may go on like this after an outcome. An outcome that was not asked for ends
/// the flow.
pub open spec fn stepped(
    pre: FlowView,
    outcome: OutcomeView,
    post: FlowView,
    effect: EffectView,
) -> bool {
    let p = pre.signal.proposal;
    match (pre.phase, outcome) {
        (PhaseView::Noted, OutcomeView::Done) => {
            if !p.passes_limits {
                skips(pre, limits_reason(p), post, effect)
            } else if pre.signal.needs_llm {
                &&& post == pre.at(PhaseView::Asking)
                &&& effect == EffectView::Consult {
                    zeta_context: pre.signal.zeta_context@,
                    questions: texts(pre.signal.llm_questions@),
                    proposal: reviewed_part(p)@,
                }
            } else {
                decides(pre, "rule_engine"@, clear_decision(p), p.contracts, post, effect)
            }
        },
        (PhaseView::Asking, OutcomeView::Answer(d)) => match decision_fault(d, p.contracts) {
            Some(fault) => skips(pre, "llm_validation_failed: "@ + fault.text(), post, effect),
            None => decides(pre, "llm"@, d, sized_contracts(d, p.contracts), post, effect),
        },
        (PhaseView::Decided(d, n), OutcomeView::Done) => {
            &&& post == pre.at(PhaseView::Weighing(d, n))
            &&& effect == EffectView::AskBuyingPower
        },
        (PhaseView::Weighing(d, n), OutcomeView::Power(power)) => {
            let cs = pre.signal.chain_candidates@;
            if !plannable(d, n, cs) {
                post == pre.at(PhaseView::Over) && effect == EffectView::Abort
            } else {
                match planned(d, n, cs, or_zero(power)) {
                    Plan::Skip { reason } => skips(pre, reason, post, effect),
                    Plan::Submit { legs } => plans_order(pre, legs, post, effect),
                }
            }
        },
        (PhaseView::Planned(o), OutcomeView::Done) => {
            &&& post == pre.at(PhaseView::Sending(o))
            &&& effect == EffectView::SubmitToBroker(o)
        },
        (PhaseView::Sending(o), OutcomeView::Accepted(id)) => {
            &&& post == pre.at(PhaseView::Staging(accepted_order(o, id)))
            &&& effect == EffectView::Stage(accepted_order(o, id))
        },
        (PhaseView::Staging(o), OutcomeView::Done) => {
            &&& post == pre.at(PhaseView::Closing)
            &&& effect matches EffectView::Append(e) && e == (EventView::OrderSubmitted {
                ts: e.stamp(),
                order: o,
            })
        },
        _ => post == pre.at(PhaseView::Over) && effect == EffectView::Finish,
    }
}

impl SignalFlow {
    pub closed spec fn state(self) -> FlowView {
        FlowView { signal: self.signal, signal_id: self.signal_id@, phase: self.phase@ }
    }

    /// Takes a signal up. Its arrival is recorded first.
    pub fn start(signal: ZetaSignal) -> (r: (SignalFlow, Effect))
        ensures
            started(signal, r.0.state(), r.1@),
    {
        let id: u128 = fresh_uuid();
        let signal_id: String = uuid_to_text(id);
        let event: OmsEvent = ev_signal_received(
            signal_id.as_str(),
            signal.symbol.as_str(),
            signal.proposal.strategy_type.as_str(),
            signal.needs_llm,
            signal.zeta_context.as_str(),
        );
        assert(signal_id@ == uuid_text(id));
        (
            SignalFlow { signal, signal_id, phase: Phase::Noted },
            Effect::Append(event),
        )
    }

    fn skip(self, reason: &str) -> (r: (SignalFlow, Effect))
        ensures
            skips(self.state(), reason@, r.0.state(), r.1@),
    {
        let event: OmsEvent = ev_action_planned(self.signal_id.as_str(), "Skip", reason);
        (SignalFlow { phase: Phase::Closing, ..self }, Effect::Append(event))
    }

    fn decide(self, source: &str, v: ValidatedDecision) -> (r: (SignalFlow, Effect))
        ensures
            decides(self.state(), source@, v.decided(), v.count(), r.0.state(), r.1@),
    {
        let d: &StrategyDecision = v.inner();
        let request_hash: String = signal_request_hash(&self.signal);
        let event: OmsEvent = ev_decision_made(
            self.signal_id.as_str(),
            source,
            request_hash.as_str(),
            d.approved,
            d.reasoning.as_str(),
            d.confidence,
            d.sizing_adjustment,
        );
        (SignalFlow { phase: Phase::Decided(v), ..self }, Effect::Append(event))
    }

    /// What follows the record of the arrival.
    fn after_arrival(self) -> (r: (SignalFlow, Effect))
        ensures
            stepped(self.state().at(PhaseView::Noted), OutcomeView::Done, r.0.state(), r.1@),
    {
        if !self.signal.proposal.passes_limits {
            let mut reason: String = "hard_limits: ".to_string();
            reason.append(text::join(&self.signal.proposal.limit_violations, "; ").as_str());
            return self.skip(reason.as_str());
        }
        if self.signal.needs_llm {
            let zeta_context: String = self.signal.zeta_context.clone();
            let questions: Vec<String> = text::own_all(&self.signal.llm_questions);
            let proposal: RuleProposal = RuleProposal::from(self.signal.proposal.clone());
            return (
                SignalFlow { phase: Phase::Asking, ..self },
                Effect::Consult { zeta_context, questions, proposal },
            );
        }
        let v: ValidatedDecision = ValidatedDecision::from_rule_engine(
            rule_engine_decision(&self.signal.proposal),
        );
        self.decide("rule_engine", v)
    }

    /// What follows the answer of the model.
    fn after_answer(self, answer: StrategyDecision) -> (r: (SignalFlow, Effect))
        ensures
            stepped(
                self.state().at(PhaseView::Asking),
                OutcomeView::Answer(answer@),
                r.0.state(),
                r.1@,
            ),
    {
        match validate_llm_decision(answer, self.signal.proposal.contracts) {
            Ok(v) => self.decide("llm", v),
            Err(e) => {
                let mut reason: String = "llm_validation_failed: ".to_string();
                reason.append(e.message().as_str());
                self.skip(reason.as_str())
            },
        }
    }

    /// What follows the answer about the buying power.
    fn after_weighing(self, v: ValidatedDecision, power: Option<Double>) -> (r: (
        SignalFlow,
        Effect,
    ))
        ensures
            stepped(
                self.state().at(PhaseView::Weighing(v.decided(), v.count())),
                OutcomeView::Power(power),
                r.0.state(),
                r.1@,
            ),
    {
        if !can_plan(&v, self.signal.chain_candidates.as_slice()) {
            return (SignalFlow { phase: Phase::Over, ..self }, Effect::Abort);
        }
        let available: Double = value_or_zero(power);
        let greeks: EntryGreeks = EntryGreeks {
            delta: self.signal.proposal.est_delta,
            gamma: Double::zero(),
            vega: self.signal.proposal.est_vega,
            theta: self.signal.proposal.est_theta_day,
        };
        let id: u128 = fresh_uuid();
        let strategy_id: String = uuid_to_text(id);
        match plan_action(
            &v,
            self.signal.chain_candidates.as_slice(),
            greeks,
            available,
            strategy_id.as_str(),
        ) {
            Action::Skip { reason } => self.skip(reason.as_str()),
            Action::Submit(order) => {
                assert(order@.strategy_id == uuid_text(id));
                let event: OmsEvent = ev_action_planned(
                    self.signal_id.as_str(),
                    "Submit",
                    uuid_to_text(order.id).as_str(),
                );
                (SignalFlow { phase: Phase::Planned(order), ..self }, Effect::Append(event))
            },
        }
    }

    /// Goes on after an outcome.
    pub fn advance(self, outcome: Outcome) -> (r: (SignalFlow, Effect))
        ensures
            stepped(self.state(), outcome@, r.0.state(), r.1@),
    {
        let flow: SignalFlow = SignalFlow {
            signal: self.signal,
            signal_id: self.signal_id,
            phase: Phase::Over,
        };
        match (self.phase, outcome) {
            (Phase::Noted, Outcome::Done) => {
                flow.after_arrival()
            },
            (Phase::Asking, Outcome::Answer(d)) => {
                flow.after_answer(d)
            },
            (Phase::Decided(v), Outcome::Done) => {
                (SignalFlow { phase: Phase::Weighing(v), ..flow }, Effect::AskBuyingPower)
            },
            (Phase::Weighing(v), Outcome::Power(power)) => {
                flow.after_weighing(v, power)
            },
            (Phase::Planned(order), Outcome::Done) => {
                let copy: Order = order.clone();
                (SignalFlow { phase: Phase::Sending(order), ..flow }, Effect::SubmitToBroker(copy))
            },
            (Phase::Sending(order), Outcome::Accepted(broker_id)) => {
                let accepted: Order = Order {
                    broker_id: Some(broker_id),
                    status: OrderStatus::Submitted,
                    ..order
                };
                let copy: Order = accepted.clone();
                (SignalFlow { phase: Phase::Staging(accepted), ..flow }, Effect::Stage(copy))
            },
            (Phase::Staging(order), Outcome::Done) => {
                (
                    SignalFlow { phase: Phase::Closing, ..flow },
                    Effect::Append(ev_submitted(order)),
                )
            },
            _ => (flow, Effect::Finish),
        }
    }
}

} // verus!
