//! Whether a decision may be acted on, and what the action is.

use super::errors::BuildFault;
use super::funding::{capital, required_capital};
use super::{build_order, buildable, can_build, trade_legs, StrikeCandidate};
use crate::agent::decision::{
    decision_fields, law_every_strategy_is_offered, urgency_choices, Bound, DecisionView,
    StrategyDecision,
};
use crate::num::double::{lemma_truncated_range, lemma_whole_zero, Double};
use crate::num::format::fixed;
use crate::orders::strategy::{strategy_named, StrategyType};
use crate::orders::{new_order, EntryGreeks, LegView, Order, TimeInForce};
use crate::outside::random_id;
use crate::text;
use crate::text::decimal;
use vstd::prelude::*;

verus! {

/// What is wrong with the answer of the model.
#[derive(Debug)]
pub enum DecisionError {
    UnknownStrategy(String),
    UnknownUrgency(String),
    Confidence(Double),
    NoDays,
    Sizing(Double),
    TooManyContracts { contracts: u32, limit: u32 },
}

/// What a [`DecisionError`] says.
pub enum DecisionFault {
    UnknownStrategy(Seq<char>),
    UnknownUrgency(Seq<char>),
    Confidence(Double),
    NoDays,
    Sizing(Double),
    TooManyContracts { contracts: u32, limit: u32 },
}

impl View for DecisionError {
    type V = DecisionFault;

    open spec fn view(&self) -> DecisionFault {
        match self {
            DecisionError::UnknownStrategy(s) => DecisionFault::UnknownStrategy(s@),
            DecisionError::UnknownUrgency(s) => DecisionFault::UnknownUrgency(s@),
            DecisionError::Confidence(x) => DecisionFault::Confidence(*x),
            DecisionError::NoDays => DecisionFault::NoDays,
            DecisionError::Sizing(x) => DecisionFault::Sizing(*x),
            DecisionError::TooManyContracts { contracts, limit } => {
                DecisionFault::TooManyContracts { contracts: *contracts, limit: *limit }
            },
        }
    }
}

impl DecisionFault {
    pub open spec fn text(self) -> Seq<char> {
        match self {
            DecisionFault::UnknownStrategy(s) => "unknown strategy type: "@ + s,
            DecisionFault::UnknownUrgency(s) => "unknown entry urgency: "@ + s,
            DecisionFault::Confidence(x) => "confidence out of range: "@ + fixed(x, 3),
            DecisionFault::NoDays => "target_dte must be at least 1"@,
            DecisionFault::Sizing(x) => "sizing_adjustment out of range: "@ + fixed(x, 3),
            DecisionFault::TooManyContracts { contracts, limit } => {
                "contracts "@ + decimal(contracts as nat) + " exceed the proposed "@ + decimal(
                    limit as nat,
                )
            },
        }
    }
}

impl DecisionError {
    pub fn message(&self) -> (r: String)
        ensures
            r@ == self@.text(),
    {
        match self {
            DecisionError::UnknownStrategy(s) => {
                let mut out: String = "unknown strategy type: ".to_string();
                out.append(s.as_str());
                out
            },
            DecisionError::UnknownUrgency(s) => {
                let mut out: String = "unknown entry urgency: ".to_string();
                out.append(s.as_str());
                out
            },
            DecisionError::Confidence(x) => {
                let mut out: String = "confidence out of range: ".to_string();
                out.append(x.fixed_text(3).as_str());
                out
            },
            DecisionError::NoDays => "target_dte must be at least 1".to_string(),
            DecisionError::Sizing(x) => {
                let mut out: String = "sizing_adjustment out of range: ".to_string();
                out.append(x.fixed_text(3).as_str());
                out
            },
            DecisionError::TooManyContracts { contracts, limit } => {
                let mut out: String = "contracts ".to_string();
                text::push_decimal(&mut out, *contracts as u128);
                out.append(" exceed the proposed ");
                text::push_decimal(&mut out, *limit as u128);
                out
            },
        }
    }
}

/// Whether `low <= x <= high` for whole numbers `low` and `high`.
pub open spec fn between(low: int, x: Double, high: int) -> bool {
    Double::whole(low).at_most(x) && x.at_most(Double::whole(high))
}

fn is_between(low: u64, x: Double, high: u64) -> (r: bool)
    ensures
        r == between(low as int, x, high as int),
{
    Double::from_u64(low).le(x) && x.le(Double::from_u64(high))
}

/// Whether a text is one of the urgencies.
pub open spec fn known_urgency(s: Seq<char>) -> bool {
    s == "immediate"@ || s == "patient"@ || s == "conditional"@
}

/// The first thing that is wrong with a decision, where at most `limit` contracts are allowed.
pub open spec fn decision_fault(d: DecisionView, limit: u32) -> Option<DecisionFault> {
    if strategy_named(d.strategy_type) is None {
        Some(DecisionFault::UnknownStrategy(d.strategy_type))
    } else if !known_urgency(d.entry_urgency) {
        Some(DecisionFault::UnknownUrgency(d.entry_urgency))
    } else if !between(0, d.confidence, 1) {
        Some(DecisionFault::Confidence(d.confidence))
    } else if d.target_dte < 1 {
        Some(DecisionFault::NoDays)
    } else if d.sizing_adjustment is Some && !between(0, d.sizing_adjustment->0, 2) {
        Some(DecisionFault::Sizing(d.sizing_adjustment->0))
    } else if d.contracts > limit {
        Some(DecisionFault::TooManyContracts { contracts: d.contracts, limit })
    } else {
        None
    }
}

/// Contracts after the sizing adjustment: the whole part of the product, and never more than
/// the rule engine allows.
pub open spec fn sized_contracts(d: DecisionView, limit: u32) -> u32 {
    match d.sizing_adjustment {
        Some(factor) => {
            let n = Double::whole(d.contracts as int).product(factor).truncated();
            if n > limit {
                limit
            } else {
                n as u32
            }
        },
        None => d.contracts,
    }
}

/// A decision that may be acted on, with the contracts to trade.
pub struct ValidatedDecision {
    decision: StrategyDecision,
    contracts: u32,
}

impl ValidatedDecision {
    pub closed spec fn decided(self) -> DecisionView {
        self.decision@
    }

    pub closed spec fn count(self) -> u32 {
        self.contracts
    }

    /// A decision of the rule engine, which is taken as it is.
    pub fn from_rule_engine(decision: StrategyDecision) -> (r: ValidatedDecision)
        ensures
            r.decided() == decision@,
            r.count() == decision.contracts,
    {
        let contracts: u32 = decision.contracts;
        ValidatedDecision { decision, contracts }
    }

    pub fn inner(&self) -> (r: &StrategyDecision)
        ensures
            r@ == self.decided(),
    {
        &self.decision
    }

    pub fn contracts(&self) -> (r: u32)
        ensures
            r == self.count(),
    {
        self.contracts
    }
}

/// Checks the answer of the model against the schema that it was given, and against the
/// contracts that the rule engine proposed.
pub fn validate_llm_decision(raw: StrategyDecision, limit: u32) -> (r: Result<
    ValidatedDecision,
    DecisionError,
>)
    ensures
        match decision_fault(raw@, limit) {
            Some(fault) => r matches Err(e) && e@ == fault,
            None => r matches Ok(v) && v.decided() == raw@ && v.count() == sized_contracts(
                raw@,
                limit,
            ),
        },
{
    if StrategyType::named(raw.strategy_type.as_str()).is_none() {
        return Err(DecisionError::UnknownStrategy(raw.strategy_type));
    }
    let urgency: &str = raw.entry_urgency.as_str();
    if !(text::same(urgency, "immediate") || text::same(urgency, "patient") || text::same(
        urgency,
        "conditional",
    )) {
        return Err(DecisionError::UnknownUrgency(raw.entry_urgency));
    }
    if !is_between(0, raw.confidence, 1) {
        return Err(DecisionError::Confidence(raw.confidence));
    }
    if raw.target_dte < 1 {
        return Err(DecisionError::NoDays);
    }
    match raw.sizing_adjustment {
        Some(factor) => {
            if !is_between(0, factor, 2) {
                return Err(DecisionError::Sizing(factor));
            }
        },
        None => {},
    }
    if raw.contracts > limit {
        return Err(DecisionError::TooManyContracts { contracts: raw.contracts, limit });
    }
    let contracts: u32 = match raw.sizing_adjustment {
        Some(factor) => {
            let n: u32 = Double::from_u64(raw.contracts as u64).times(factor).trunc_u32();
            if n > limit {
                limit
            } else {
                n
            }
        },
        None => raw.contracts,
    };
    Ok(ValidatedDecision { decision: raw, contracts })
}

/// What to do about a signal.
pub enum Action {
    Skip { reason: String },
    Submit(Order),
}

/// What an [`Action`] says. Which identifier and time a new order gets is left open.
pub enum Plan {
    Skip { reason: Seq<char> },
    Submit { legs: Seq<LegView> },
}

/// Why an order that cannot be paid for is skipped.
pub open spec fn short_of_capital(needed: Double, available: Double) -> Seq<char> {
    "insufficient_capital: need "@ + fixed(needed, 2) + ", have "@ + fixed(available, 2)
}

/// What to do about a decision: nothing if it is not approved, for no contracts, cannot be
/// built, or cannot be paid for.
pub open spec fn planned(
    d: DecisionView,
    contracts: u32,
    cs: Seq<StrikeCandidate>,
    available: Double,
) -> Plan {
    if !d.approved {
        Plan::Skip { reason: "not_approved"@ }
    } else if contracts == 0 {
        Plan::Skip { reason: "zero_contracts"@ }
    } else {
        match trade_legs(d.strategy_type, cs, contracts, d.target_dte) {
            Err(fault) => Plan::Skip { reason: fault.text() },
            Ok(legs) => if capital(legs).at_most(available) {
                Plan::Submit { legs }
            } else {
                Plan::Skip { reason: short_of_capital(capital(legs), available) }
            },
        }
    }
}

/// Whether the chain can be looked up as far as the decision needs it.
pub open spec fn plannable(d: DecisionView, contracts: u32, cs: Seq<StrikeCandidate>) -> bool {
    d.approved && contracts > 0 ==> buildable(d.strategy_type, cs, d.target_dte)
}

pub fn can_plan(decision: &ValidatedDecision, candidates: &[StrikeCandidate]) -> (r: bool)
    ensures
        r == plannable(decision.decided(), decision.count(), candidates@),
{
    let d: &StrategyDecision = decision.inner();
    if d.approved && decision.contracts > 0 {
        can_build(d.strategy_type.as_str(), candidates, d.target_dte)
    } else {
        true
    }
}

/// Plans the action for a decision. Nothing is sent anywhere.
pub fn plan_action(
    decision: &ValidatedDecision,
    candidates: &[StrikeCandidate],
    greeks: EntryGreeks,
    available: Double,
    strategy_id: &str,
) -> (r: Action)
    requires
        plannable(decision.decided(), decision.count(), candidates@),
    ensures
        match planned(decision.decided(), decision.count(), candidates@, available) {
            Plan::Skip { reason } => r matches Action::Skip { reason: text } && text@ == reason,
            Plan::Submit { legs } => r matches Action::Submit(o) && random_id(o.id) && o@ == new_order(
                o.id,
                o.created_at,
                strategy_id@,
                legs,
                TimeInForce::Day,
                greeks,
            ),
        },
{
    let d: &StrategyDecision = decision.inner();
    if !d.approved {
        return Action::Skip { reason: "not_approved".to_string() };
    }
    if decision.contracts == 0 {
        return Action::Skip { reason: "zero_contracts".to_string() };
    }
    match build_order(
        d.strategy_type.as_str(),
        candidates,
        decision.contracts,
        d.target_dte,
        strategy_id,
        greeks,
    ) {
        Ok(order) => {
            let needed: Double = required_capital(&order);
            if needed.le(available) {
                Action::Submit(order)
            } else {
                let mut reason: String = "insufficient_capital: need ".to_string();
                reason.append(needed.fixed_text(2).as_str());
                reason.append(", have ");
                reason.append(available.fixed_text(2).as_str());
                Action::Skip { reason }
            }
        },
        Err(e) => Action::Skip { reason: e.message() },
    }
}

/// A decision that passes the check trades at most the contracts that the rule engine proposed,
/// whatever the sizing adjustment is.
pub proof fn law_sizing_stays_within_the_proposal(d: DecisionView, limit: u32)
    requires
        decision_fault(d, limit) is None,
    ensures
        sized_contracts(d, limit) <= limit,
{
    if d.sizing_adjustment is Some {
        lemma_truncated_range(Double::whole(d.contracts as int).product(d.sizing_adjustment->0));
    }
}

/// A decision passes the check only if it is one that the schema of the tool admits: its choices
/// are among those offered and its numbers within the bounds.
pub proof fn law_accepted_decisions_fit_the_schema(d: DecisionView, limit: u32)
    requires
        decision_fault(d, limit) is None,
    ensures
        decision_fields()[1].choices.contains(d.strategy_type),
        decision_fields()[6].choices.contains(d.entry_urgency),
        decision_fields()[5].minimum matches Some(Bound::Whole(n)) && n <= d.target_dte,
        decision_fields()[8].minimum matches Some(Bound::Real(low)) && low.at_most(d.confidence),
        decision_fields()[8].maximum matches Some(Bound::Real(high)) && d.confidence.at_most(high),
        d.sizing_adjustment matches Some(factor) ==> {
            &&& decision_fields()[10].minimum matches Some(Bound::Real(low)) && low.at_most(factor)
            &&& decision_fields()[10].maximum matches Some(Bound::Real(high)) && factor.at_most(
                high,
            )
        },
{
    let s: StrategyType = strategy_named(d.strategy_type)->0;
    assert(s.label() == d.strategy_type);
    law_every_strategy_is_offered(s);
    lemma_whole_zero();
    let u: Seq<Seq<char>> = urgency_choices();
    assert(u[0] == "immediate"@ && u[1] == "patient"@ && u[2] == "conditional"@);
}

/// An order is planned only for an approved decision, for at least one contract, and with
/// enough capital at hand to enter it.
pub proof fn law_planned_orders_are_approved_and_paid_for(
    d: DecisionView,
    contracts: u32,
    cs: Seq<StrikeCandidate>,
    available: Double,
)
    ensures
        planned(d, contracts, cs, available) matches Plan::Submit { legs } ==> {
            &&& d.approved
            &&& contracts > 0
            &&& trade_legs(d.strategy_type, cs, contracts, d.target_dte) == Ok::<
                Seq<LegView>,
                BuildFault,
            >(legs)
            &&& capital(legs).at_most(available)
        },
{
}

} // verus!
