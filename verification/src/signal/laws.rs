//! What holds of every run of a flow, whatever the outcomes are.

use super::{
    accepted_order, started, stepped, EffectView, FlowView, OutcomeView, PhaseView,
};
use crate::agent::decision::DecisionView;
use crate::execution::plan::{
    law_planned_orders_are_approved_and_paid_for, law_sizing_stays_within_the_proposal, planned,
    Plan,
};
use crate::execution::funding::capital;
use crate::ipc::ZetaSignal;
use crate::num::double::{or_zero, Double};
use crate::orders::persistence::EventView;
use crate::orders::{OrderStatus, OrderView};
use crate::outside::uuid_text;
use vstd::prelude::*;

verus! {

/// One step of a run: the outcome of the last effect, and what came of it.
pub struct Step {
    pub outcome: OutcomeView,
    pub flow: FlowView,
    pub effect: EffectView,
}

/// Whether steps follow each other as the flow allows. The outcome of the first step, which
/// has no effect before it, does not matter.
pub open spec fn is_run(signal: ZetaSignal, steps: Seq<Step>) -> bool {
    &&& steps.len() > 0
    &&& started(signal, steps[0].flow, steps[0].effect)
    &&& forall|i: int| 0 < i < steps.len() ==> #[trigger] follows(steps, i)
}

/// Whether a step comes from the one before it.
pub open spec fn follows(steps: Seq<Step>, i: int) -> bool {
    stepped(steps[i - 1].flow, steps[i].outcome, steps[i].flow, steps[i].effect)
}

/// How far a phase is along the way.
pub open spec fn rank(phase: PhaseView) -> int {
    match phase {
        PhaseView::Noted => 0,
        PhaseView::Asking => 1,
        PhaseView::Decided(_, _) => 2,
        PhaseView::Weighing(_, _) => 3,
        PhaseView::Planned(_) => 4,
        PhaseView::Sending(_) => 5,
        PhaseView::Staging(_) => 6,
        PhaseView::Closing => 7,
        PhaseView::Over => 8,
    }
}

proof fn lemma_same_signal(signal: ZetaSignal, steps: Seq<Step>, k: int)
    requires
        is_run(signal, steps),
        0 <= k < steps.len(),
    ensures
        steps[k].flow.signal == signal,
        steps[k].flow.signal_id == steps[0].flow.signal_id,
        k > 0 ==> follows(steps, k),
    decreases k,
{
    if k > 0 {
        lemma_same_signal(signal, steps, k - 1);
        assert(follows(steps, k));
    }
}

proof fn lemma_rank_grows(signal: ZetaSignal, steps: Seq<Step>, i: int, k: int)
    requires
        is_run(signal, steps),
        0 <= i <= k < steps.len(),
    ensures
        rank(steps[k].flow.phase) >= rank(steps[i].flow.phase),
        i < k && !(steps[k].flow.phase is Over) ==> rank(steps[k].flow.phase) > rank(
            steps[i].flow.phase,
        ),
        rank(steps[k].flow.phase) >= k || steps[k].flow.phase is Over,
    decreases k,
{
    if k > 0 {
        lemma_same_signal(signal, steps, k);
        if i < k {
            lemma_rank_grows(signal, steps, i, k - 1);
        } else {
            lemma_rank_grows(signal, steps, k - 1, k - 1);
        }
    }
}

/// Every run ends: after the arrival there are at most eight steps that do something.
pub proof fn law_runs_end(signal: ZetaSignal, steps: Seq<Step>, k: int)
    requires
        is_run(signal, steps),
        8 <= k < steps.len(),
    ensures
        steps[k].flow.phase is Over,
{
    lemma_rank_grows(signal, steps, k, k);
}

/// What led to a decision: the limits are kept, and the contracts are within the proposal.
proof fn lemma_decided(
    signal: ZetaSignal,
    steps: Seq<Step>,
    k: int,
    d: DecisionView,
    n: u32,
)
    requires
        is_run(signal, steps),
        0 <= k < steps.len(),
        steps[k].flow.phase == PhaseView::Decided(d, n),
    ensures
        k > 0,
        signal.proposal.passes_limits,
        n <= signal.proposal.contracts,
        steps[k].effect matches EffectView::Append(e) && e matches EventView::DecisionMade {
            signal_id,
            approved,
            ..
        } && signal_id == steps[0].flow.signal_id && approved == d.approved,
{
    lemma_same_signal(signal, steps, k);
    if k > 0 {
        lemma_same_signal(signal, steps, k - 1);
        if steps[k - 1].flow.phase is Asking {
            if k - 1 > 0 {
                lemma_same_signal(signal, steps, k - 2);
            }
            law_sizing_stays_within_the_proposal(d, signal.proposal.contracts);
        }
    }
}

/// Whether an event says, for a signal, that it was decided to trade.
pub open spec fn records_approval(e: EventView, id: Seq<char>) -> bool {
    e matches EventView::DecisionMade { signal_id, approved, .. } && signal_id == id && approved
}

/// Whether an event says, for a signal, that an order will be submitted.
pub open spec fn records_submission(e: EventView, id: Seq<char>, o: OrderView) -> bool {
    e matches EventView::ActionPlanned { signal_id, action, detail, .. } && signal_id == id
        && action == "Submit"@ && detail == uuid_text(o.id)
}

/// An order goes to the broker only after the approval and the plan to submit that very order
/// have been recorded. It keeps the hard limits, is for at most the contracts that the rule
/// engine proposed, and the capital it needs was there when the broker was asked.
pub proof fn law_orders_follow_the_record(
    signal: ZetaSignal,
    steps: Seq<Step>,
    k: int,
    o: OrderView,
)
    requires
        is_run(signal, steps),
        0 <= k < steps.len(),
        steps[k].effect == EffectView::SubmitToBroker(o),
    ensures
        k >= 4,
        signal.proposal.passes_limits,
        steps[k - 3].effect matches EffectView::Append(e) && records_approval(
            e,
            steps[0].flow.signal_id,
        ),
        steps[k - 2].outcome is Done,
        steps[k - 1].effect matches EffectView::Append(e) && records_submission(
            e,
            steps[0].flow.signal_id,
            o,
        ),
        steps[k].outcome is Done,
        steps[k - 1].outcome matches OutcomeView::Power(power) && capital(o.legs).at_most(
            or_zero(power),
        ),
        steps[k - 3].flow.phase matches PhaseView::Decided(d, n) && 0 < n
            <= signal.proposal.contracts,
        o.status is Pending,
        o.broker_id is None,
{
    lemma_same_signal(signal, steps, k);
    assert(k > 0);
    lemma_same_signal(signal, steps, k - 1);
    assert(steps[k - 1].flow.phase == PhaseView::Planned(o));
    assert(k - 1 > 0);
    lemma_same_signal(signal, steps, k - 2);
    assert(steps[k - 2].flow.phase is Weighing);
    let (d, n) = match steps[k - 2].flow.phase {
        PhaseView::Weighing(d, n) => (d, n),
        _ => (arbitrary(), arbitrary()),
    };
    assert(k - 2 > 0);
    lemma_same_signal(signal, steps, k - 3);
    assert(steps[k - 3].flow.phase == PhaseView::Decided(d, n));
    lemma_decided(signal, steps, k - 3, d, n);
    let power: Option<Double> = match steps[k - 1].outcome {
        OutcomeView::Power(p) => p,
        _ => arbitrary(),
    };
    law_planned_orders_are_approved_and_paid_for(
        d,
        n,
        signal.chain_candidates@,
        or_zero(power),
    );
    assert(planned(d, n, signal.chain_candidates@, or_zero(power)) == Plan::Submit {
        legs: o.legs,
    });
}

/// An order is held, and recorded as submitted, only once the broker has accepted it: with the
/// name that the broker gave it, and otherwise as it was sent.
pub proof fn law_held_orders_were_accepted(
    signal: ZetaSignal,
    steps: Seq<Step>,
    k: int,
    o: OrderView,
)
    requires
        is_run(signal, steps),
        0 <= k < steps.len(),
        steps[k].effect == EffectView::Stage(o),
    ensures
        k >= 5,
        steps[k].outcome matches OutcomeView::Accepted(id) && steps[k - 1].effect matches
            EffectView::SubmitToBroker(sent) && o == accepted_order(sent, id),
        o.status == OrderStatus::Submitted,
{
    lemma_same_signal(signal, steps, k);
    assert(k > 0);
    lemma_same_signal(signal, steps, k - 1);
    assert(steps[k - 1].flow.phase is Sending);
    let sent: OrderView = match steps[k - 1].flow.phase {
        PhaseView::Sending(sent) => sent,
        _ => arbitrary(),
    };
    assert(steps[k - 1].effect == EffectView::SubmitToBroker(sent));
    law_orders_follow_the_record(signal, steps, k - 1, sent);
}

/// An order is recorded as submitted right after it was held.
pub proof fn law_submissions_are_recorded_once_held(
    signal: ZetaSignal,
    steps: Seq<Step>,
    k: int,
    o: OrderView,
)
    requires
        is_run(signal, steps),
        0 <= k < steps.len(),
        steps[k].effect matches EffectView::Append(e) && e matches EventView::OrderSubmitted {
            order,
            ..
        } && order == o,
    ensures
        k >= 1,
        steps[k].outcome is Done,
        steps[k - 1].effect == EffectView::Stage(o),
{
    lemma_same_signal(signal, steps, k);
    if k > 0 {
        lemma_same_signal(signal, steps, k - 1);
    }
}

/// An order that the broker accepts is held next, and once it is held it is recorded as
/// submitted.
pub proof fn law_accepted_orders_are_held_and_recorded(
    signal: ZetaSignal,
    steps: Seq<Step>,
    k: int,
    o: OrderView,
    id: Seq<char>,
)
    requires
        is_run(signal, steps),
        0 <= k,
        k + 2 < steps.len(),
        steps[k].effect == EffectView::SubmitToBroker(o),
        steps[k + 1].outcome == OutcomeView::Accepted(id),
        steps[k + 2].outcome is Done,
    ensures
        steps[k + 1].effect == EffectView::Stage(accepted_order(o, id)),
        steps[k + 2].effect matches EffectView::Append(e) && e matches EventView::OrderSubmitted {
            order,
            ..
        } && order == accepted_order(o, id),
{
    lemma_same_signal(signal, steps, k);
    lemma_same_signal(signal, steps, k + 1);
    lemma_same_signal(signal, steps, k + 2);
}

/// A proposal that breaks the hard limits is neither reviewed nor traded.
pub proof fn law_hard_limits_are_a_veto(signal: ZetaSignal, steps: Seq<Step>, k: int)
    requires
        is_run(signal, steps),
        0 <= k < steps.len(),
        !signal.proposal.passes_limits,
    ensures
        !(steps[k].effect is Consult),
        !(steps[k].effect is SubmitToBroker),
        !(steps[k].effect is Stage),
{
    lemma_same_signal(signal, steps, k);
    if k > 0 {
        lemma_same_signal(signal, steps, k - 1);
    }
    match steps[k].effect {
        EffectView::SubmitToBroker(o) => {
            law_orders_follow_the_record(signal, steps, k, o);
        },
        EffectView::Stage(o) => {
            law_held_orders_were_accepted(signal, steps, k, o);
            match steps[k - 1].effect {
                EffectView::SubmitToBroker(sent) => {
                    law_orders_follow_the_record(signal, steps, k - 1, sent);
                },
                _ => {},
            }
        },
        _ => {},
    }
}

/// The model is asked only about signals that ask for a review.
pub proof fn law_clear_signals_are_not_reviewed(signal: ZetaSignal, steps: Seq<Step>, k: int)
    requires
        is_run(signal, steps),
        0 <= k < steps.len(),
        !signal.needs_llm,
    ensures
        !(steps[k].effect is Consult),
{
    lemma_same_signal(signal, steps, k);
    if k > 0 {
        lemma_same_signal(signal, steps, k - 1);
    }
}

/// A signal leads to at most one order.
pub proof fn law_one_order_at_most(signal: ZetaSignal, steps: Seq<Step>, i: int, k: int)
    requires
        is_run(signal, steps),
        0 <= i < steps.len(),
        0 <= k < steps.len(),
        steps[i].effect is SubmitToBroker,
        steps[k].effect is SubmitToBroker,
    ensures
        i == k,
{
    lemma_same_signal(signal, steps, i);
    lemma_same_signal(signal, steps, k);
    if i < k {
        lemma_rank_grows(signal, steps, i, k);
    } else {
        lemma_rank_grows(signal, steps, k, i);
    }
}

/// All events about a signal, its decision and its action carry the same identifier, so that
/// the record links them.
pub proof fn law_events_carry_the_signal(signal: ZetaSignal, steps: Seq<Step>, k: int, e: EventView)
    requires
        is_run(signal, steps),
        0 <= k < steps.len(),
        steps[k].effect == EffectView::Append(e),
    ensures
        match e {
            EventView::SignalReceived { signal_id, .. } => signal_id == steps[0].flow.signal_id,
            EventView::DecisionMade { signal_id, .. } => signal_id == steps[0].flow.signal_id,
            EventView::ActionPlanned { signal_id, .. } => signal_id == steps[0].flow.signal_id,
            EventView::OrderSubmitted { .. } => true,
            _ => false,
        },
{
    lemma_same_signal(signal, steps, k);
    if k > 0 {
        lemma_same_signal(signal, steps, k - 1);
    }
}

} // verus!
