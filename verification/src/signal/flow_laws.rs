//! What each step of a flow does, and what the record says of it.

use super::{
    entry_greeks, request_hash, request_key, started, stepped, EffectView, FlowView, OutcomeView,
    PhaseView,
};
use crate::agent::decision::DecisionView;
use crate::execution::plan::{decision_fault, plannable, planned, sized_contracts, Plan};
use crate::ipc::{RuleProposalMsg, ZetaSignal};
use crate::num::double::Double;
use crate::orders::persistence::EventView;
use crate::orders::{LegView, OrderStatus, OrderView, TimeInForce};
use crate::outside::{random_id, uuid_text, uuid_v5};
use crate::text::{decimal, head, is_digit, joined, texts};
use crate::text_laws::{law_decimals_are_distinct, law_decimals_read_back};
use vstd::prelude::*;
use vstd::utf8::encode_utf8;

verus! {

/// Whether only the phase of a flow has changed.
pub open spec fn same_flow(pre: FlowView, post: FlowView) -> bool {
    pre.signal == post.signal && pre.signal_id == post.signal_id
}

/// Whether an effect is to record that a signal is skipped, and why.
pub open spec fn records_skip(pre: FlowView, effect: EffectView, why: Seq<char>) -> bool {
    effect matches EffectView::Append(EventView::ActionPlanned { signal_id, action, detail, .. })
        && signal_id == pre.signal_id && action == "Skip"@ && detail == why
}

/// Whether an effect is to record a decision: where it came from, what was asked, whether it was
/// approved, why, how sure it is and how the size is adjusted.
pub open spec fn records_decision(
    pre: FlowView,
    effect: EffectView,
    from: Seq<char>,
    d: DecisionView,
) -> bool {
    effect matches EffectView::Append(
        EventView::DecisionMade {
            signal_id,
            source,
            request_hash: hash,
            approved,
            reasoning,
            confidence,
            sizing_adjustment,
            ..
        },
    ) && signal_id == pre.signal_id && source == from && hash == request_hash(pre.signal)
        && approved == d.approved && reasoning == d.reasoning && confidence == d.confidence
        && sizing_adjustment == d.sizing_adjustment
}

/// A flow starts under a random identifier by recording the arrival of the signal: its symbol, the
/// strategy, whether it needs a review, and the first 200 characters of the description of the
/// market.
pub proof fn law_arrivals_are_recorded_first(
    signal: ZetaSignal,
    f: FlowView,
    effect: EffectView,
)
    requires
        started(signal, f, effect),
    ensures
        f.signal == signal,
        f.phase is Noted,
        exists|id: u128| random_id(id) && f.signal_id == #[trigger] uuid_text(id),
        effect matches EffectView::Append(
            EventView::SignalReceived {
                signal_id,
                symbol,
                strategy_type,
                needs_llm,
                zeta_context_preview,
                ..
            },
        ) && signal_id == f.signal_id && symbol == signal.symbol@ && strategy_type
            == signal.proposal.strategy_type@ && needs_llm == signal.needs_llm
            && zeta_context_preview == head(signal.zeta_context@, 200),
{
}

/// After the arrival a proposal that breaks the limits is skipped, with the limits that it breaks;
/// an ambiguous one is reviewed, with everything that the review needs; and a clear one is
/// decided as proposed, without a review: approved, for the strategy, the contracts, the Greeks,
/// the days and the urgency of the proposal, with a confidence of 85 percent and no adjustment.
pub proof fn law_arrivals_lead_to_a_decision(pre: FlowView, post: FlowView, effect: EffectView)
    requires
        pre.phase is Noted,
        stepped(pre, OutcomeView::Done, post, effect),
    ensures
        same_flow(pre, post),
        ({
            let p = pre.signal.proposal;
            if !p.passes_limits {
                &&& post.phase is Closing
                &&& records_skip(
                    pre,
                    effect,
                    "hard_limits: "@ + joined(texts(p.limit_violations@), "; "@),
                )
            } else if pre.signal.needs_llm {
                &&& post.phase is Asking
                &&& effect matches EffectView::Consult { zeta_context, questions, proposal }
                    && zeta_context == pre.signal.zeta_context@ && questions == texts(
                    pre.signal.llm_questions@,
                ) && proposal.strategy_type == p.strategy_type@ && proposal.contracts == p.contracts
                    && proposal.max_risk_dollars == p.max_risk_dollars && proposal.est_delta
                    == p.est_delta && proposal.est_vega == p.est_vega && proposal.est_theta_day
                    == p.est_theta_day && proposal.target_dte == p.target_dte
                    && proposal.entry_urgency == p.entry_urgency@ && proposal.rationale
                    == p.rationale@
            } else {
                &&& post.phase matches PhaseView::Decided(d, n) && n == p.contracts && d.approved
                    && d.strategy_type == p.strategy_type@ && d.contracts == p.contracts
                    && d.target_delta == p.est_delta && d.target_vega == p.est_vega && d.target_dte
                    == p.target_dte && d.entry_urgency == p.entry_urgency@ && d.confidence
                    == Double::percent(85) && d.sizing_adjustment is None && d.macro_concerns is None
                    && d.conditional_trigger is None && records_decision(
                    pre,
                    effect,
                    "rule_engine"@,
                    d,
                )
            }
        }),
{
}

/// An answer of the model that is within the bounds is what is decided, with its contracts sized;
/// any other answer leads to nothing, and what is wrong with it is recorded.
pub proof fn law_answers_are_decisions_within_bounds(
    pre: FlowView,
    answer: DecisionView,
    post: FlowView,
    effect: EffectView,
)
    requires
        pre.phase is Asking,
        stepped(pre, OutcomeView::Answer(answer), post, effect),
    ensures
        same_flow(pre, post),
        match decision_fault(answer, pre.signal.proposal.contracts) {
            Some(fault) => post.phase is Closing && records_skip(
                pre,
                effect,
                "llm_validation_failed: "@ + fault.text(),
            ),
            None => post.phase == PhaseView::Decided(
                answer,
                sized_contracts(answer, pre.signal.proposal.contracts),
            ) && records_decision(pre, effect, "llm"@, answer),
        },
{
}

/// Once a decision is recorded the broker is asked for the buying power, and with its answer the
/// trade is planned from the chain of the signal; without an answer there is none. What cannot
/// be planned is skipped for the reason that the plan gives.
pub proof fn law_decisions_are_weighed_and_planned(
    pre: FlowView,
    power: Option<Double>,
    d: DecisionView,
    n: u32,
    post: FlowView,
    effect: EffectView,
)
    requires
        pre.phase == PhaseView::Weighing(d, n),
        stepped(pre, OutcomeView::Power(power), post, effect),
        plannable(d, n, pre.signal.chain_candidates@),
    ensures
        same_flow(pre, post),
        ({
            let available = match power {
                Some(x) => x,
                None => Double::of(false, 0),
            };
            match planned(d, n, pre.signal.chain_candidates@, available) {
                Plan::Skip { reason } => post.phase is Closing && records_skip(pre, effect, reason),
                Plan::Submit { legs } => post.phase matches PhaseView::Planned(o) && is_new_order(
                    o,
                    legs,
                ) && o.delta_at_entry == pre.signal.proposal.est_delta && o.gamma_at_entry
                    == Double::of(false, 0) && o.vega_at_entry == pre.signal.proposal.est_vega
                    && o.theta_at_entry == pre.signal.proposal.est_theta_day && (effect matches
                    EffectView::Append(
                    EventView::ActionPlanned { signal_id, action, detail, .. },
                ) && signal_id == pre.signal_id && action == "Submit"@ && detail == uuid_text(
                    o.id,
                )),
            }
        }),
{
}

/// An order is recorded with the delta, the vega and the theta that the proposal expects, and with
/// no gamma.
pub proof fn law_orders_are_recorded_with_expected_greeks(p: RuleProposalMsg)
    ensures
        entry_greeks(p).delta == p.est_delta,
        entry_greeks(p).vega == p.est_vega,
        entry_greeks(p).theta == p.est_theta_day,
        entry_greeks(p).gamma == Double::of(false, 0),
{
}

/// Whether an order is new: a day order with the given legs, under a random identifier, that
/// nothing is known of at any broker.
pub open spec fn is_new_order(o: OrderView, legs: Seq<LegView>) -> bool {
    &&& random_id(o.id)
    &&& o.legs == legs
    &&& o.tif == TimeInForce::Day
    &&& o.status == OrderStatus::Pending
    &&& o.filled_qty == 0
    &&& o.avg_fill_px == Double::of(false, 0)
    &&& o.broker_id is None
}

/// A recorded decision is weighed, a recorded plan is sent, and what the broker accepts is held,
/// with the name that the broker gave it and as submitted, and then recorded; nothing else of
/// the order changes on the way. What the broker refuses is dropped.
pub proof fn law_plans_are_sent_held_and_recorded(
    pre: FlowView,
    outcome: OutcomeView,
    post: FlowView,
    effect: EffectView,
)
    requires
        stepped(pre, outcome, post, effect),
    ensures
        same_flow(pre, post),
        pre.phase matches PhaseView::Decided(d, n) ==> (outcome is Done ==> post.phase
            == PhaseView::Weighing(d, n) && effect is AskBuyingPower),
        pre.phase matches PhaseView::Planned(o) ==> (outcome is Done ==> post.phase
            == PhaseView::Sending(o) && effect == EffectView::SubmitToBroker(o)),
        pre.phase matches PhaseView::Sending(o) ==> match outcome {
            OutcomeView::Accepted(id) => post.phase matches PhaseView::Staging(held) && effect
                == EffectView::Stage(held) && held.status == OrderStatus::Submitted
                && held.broker_id == Some(id) && held.id == o.id && held.legs == o.legs && held.tif
                == o.tif && held.created_at == o.created_at && held.strategy_id == o.strategy_id
                && held.filled_qty == o.filled_qty && held.avg_fill_px == o.avg_fill_px
                && held.delta_at_entry == o.delta_at_entry && held.gamma_at_entry
                == o.gamma_at_entry && held.vega_at_entry == o.vega_at_entry && held.theta_at_entry
                == o.theta_at_entry,
            _ => post.phase is Over && effect is Finish,
        },
        pre.phase matches PhaseView::Staging(o) ==> (outcome is Done ==> post.phase is Closing && (
        effect matches EffectView::Append(EventView::OrderSubmitted { order, .. }) && order == o)),
        outcome is Failed || outcome is Refused ==> post.phase is Over && effect is Finish,
        pre.phase is Closing || pre.phase is Over ==> post.phase is Over && effect is Finish,
{
}

// ── Identity of a request ───────────────────────────────────────────────────

proof fn lemma_last_bar(a: Seq<char>, x: Seq<char>, b: Seq<char>, y: Seq<char>)
    requires
        a.push('|') + x == b.push('|') + y,
        !x.contains('|'),
        !y.contains('|'),
    ensures
        a == b,
        x == y,
{
    let s: Seq<char> = a.push('|') + x;
    let t: Seq<char> = b.push('|') + y;
    let m: int = a.len() as int;
    let n: int = b.len() as int;
    assert(s[m] == '|' && t[n] == '|');
    assert(s.len() == m + 1 + x.len() && t.len() == n + 1 + y.len());
    if m < n {
        let k: int = n - m - 1;
        assert((a.push('|') + x)[m + 1 + k] == x[k]);
        assert(x[k] == '|');
    }
    if n < m {
        let k: int = m - n - 1;
        assert((b.push('|') + y)[n + 1 + k] == y[k]);
        assert(y[k] == '|');
    }
    assert(a =~= s.take(m));
    assert(b =~= t.take(n));
    assert(x =~= s.skip(m + 1));
    assert(y =~= t.skip(n + 1));
}

proof fn lemma_no_bar(n: nat)
    ensures
        !decimal(n).contains('|'),
{
    law_decimals_read_back(n);
    if decimal(n).contains('|') {
        let k: int = choose|k: int| 0 <= k < decimal(n).len() && decimal(n)[k] == '|';
        assert(is_digit(decimal(n)[k]));
    }
}

/// Two signals ask for the same decision only if they share the description of the market, the
/// strategy and the contracts, where the names of the strategies have no bar in them.
pub proof fn law_requests_are_told_apart(a: ZetaSignal, b: ZetaSignal)
    requires
        request_key(a) == request_key(b),
        !a.proposal.strategy_type@.contains('|'),
        !b.proposal.strategy_type@.contains('|'),
    ensures
        a.zeta_context@ == b.zeta_context@,
        a.proposal.strategy_type@ == b.proposal.strategy_type@,
        a.proposal.contracts == b.proposal.contracts,
{
    reveal_strlit("|");
    let x: Seq<char> = a.zeta_context@.push('|') + a.proposal.strategy_type@;
    let y: Seq<char> = b.zeta_context@.push('|') + b.proposal.strategy_type@;
    let m: nat = a.proposal.contracts as nat;
    let n: nat = b.proposal.contracts as nat;
    assert(request_key(a) =~= x.push('|') + decimal(m));
    assert(request_key(b) =~= y.push('|') + decimal(n));
    lemma_no_bar(m);
    lemma_no_bar(n);
    lemma_last_bar(x, decimal(m), y, decimal(n));
    law_decimals_are_distinct(m, n);
    lemma_last_bar(
        a.zeta_context@,
        a.proposal.strategy_type@,
        b.zeta_context@,
        b.proposal.strategy_type@,
    );
}

/// The hash of a request is the name-based identifier of what it asks for, under the namespace of
/// object identifiers.
pub proof fn law_hashes_are_name_based(signal: ZetaSignal)
    ensures
        request_hash(signal) == uuid_text(
            uuid_v5(
                0x6ba7b812_9dad_11d1_80b4_00c04fd430c8,
                encode_utf8(
                    signal.zeta_context@ + "|"@ + signal.proposal.strategy_type@ + "|"@ + decimal(
                        signal.proposal.contracts as nat,
                    ),
                ),
            ),
        ),
{
}

} // verus!
