//! Which decisions are acted on, with how many contracts, and which trades are made.

use super::errors::BuildFault;
use super::funding::capital;
use super::plan::{decision_fault, planned, sized_contracts, DecisionFault, Plan};
use super::strikes::StrikeCandidate;
use super::trade_legs;
use crate::agent::decision::DecisionView;
use crate::num::double::{one, Double};
use crate::num::format::fixed;
use crate::num::laws::{
    law_whole_numbers_are_exact, law_whole_parts_are_cut_down, lemma_nearest_monotone,
    lemma_whole_is_whole, lemma_whole_product, lemma_whole_rounded,
};
use crate::num::rounding::{
    law_every_quotient_rounds, lemma_magnitude_order, lemma_nearest_exact, lemma_nearest_unique,
    magnitude, nearest, INF,
};
use crate::orders::strategy::{strategy_named, StrategyType};
use crate::orders::LegView;
use crate::text::decimal;
use vstd::arithmetic::power2::lemma_pow2_pos;
use vstd::prelude::*;

verus! {

// ── Decisions ───────────────────────────────────────────────────────────────

/// Whether a text names a strategy that the model may choose.
pub open spec fn names_a_strategy(name: Seq<char>) -> bool {
    ||| name == "IronCondor"@
    ||| name == "Strangle"@
    ||| name == "IronButterfly"@
    ||| name == "LongStraddle"@
    ||| name == "LongStrangle"@
    ||| name == "Backspread"@
    ||| name == "RiskReversal"@
    ||| name == "FuturesCalendar"@
    ||| name == "FuturesLong"@
    ||| name == "FuturesShort"@
    ||| name == "DeltaHedge"@
    ||| name == "DoNothing"@
}

/// A text names a strategy if and only if it is one of the twelve names.
pub proof fn law_strategies_have_twelve_names(name: Seq<char>)
    ensures
        strategy_named(name) is Some <==> names_a_strategy(name),
        strategy_named(name) matches Some(s) ==> s.label() == name,
{
    if strategy_named(name) is Some {
        let s: StrategyType = strategy_named(name)->0;
        assert(s.label() == name);
    }
    if names_a_strategy(name) {
        assert(StrategyType::IronCondor.label() == "IronCondor"@);
        assert(StrategyType::Strangle.label() == "Strangle"@);
        assert(StrategyType::IronButterfly.label() == "IronButterfly"@);
        assert(StrategyType::LongStraddle.label() == "LongStraddle"@);
        assert(StrategyType::LongStrangle.label() == "LongStrangle"@);
        assert(StrategyType::Backspread.label() == "Backspread"@);
        assert(StrategyType::RiskReversal.label() == "RiskReversal"@);
        assert(StrategyType::FuturesCalendar.label() == "FuturesCalendar"@);
        assert(StrategyType::FuturesLong.label() == "FuturesLong"@);
        assert(StrategyType::FuturesShort.label() == "FuturesShort"@);
        assert(StrategyType::DeltaHedge.label() == "DeltaHedge"@);
        assert(StrategyType::DoNothing.label() == "DoNothing"@);
    }
}

/// Whether a text is one of the three urgencies.
pub open spec fn names_an_urgency(word: Seq<char>) -> bool {
    word == "immediate"@ || word == "patient"@ || word == "conditional"@
}

/// Whether a number is at least zero and at most a whole one.
pub open spec fn at_least_zero_up_to(x: Double, high: int) -> bool {
    Double::whole(0).at_most(x) && x.at_most(Double::whole(high))
}

/// The answer of the model is accepted if and only if it names a strategy and an urgency, its
/// confidence is from zero to one, its target is at least a day ahead, its sizing adjustment, if
/// there is one, is from zero to two, and its contracts are at most those that were proposed.
/// Otherwise the first thing that is wrong is reported.
pub proof fn law_answers_are_accepted_within_bounds(d: DecisionView, limit: u32)
    ensures
        decision_fault(d, limit) is None <==> {
            &&& names_a_strategy(d.strategy_type)
            &&& names_an_urgency(d.entry_urgency)
            &&& at_least_zero_up_to(d.confidence, 1)
            &&& d.target_dte >= 1
            &&& d.sizing_adjustment matches Some(f) ==> at_least_zero_up_to(f, 2)
            &&& d.contracts <= limit
        },
        match decision_fault(d, limit) {
            Some(DecisionFault::UnknownStrategy(s)) => s == d.strategy_type && !names_a_strategy(s),
            Some(DecisionFault::UnknownUrgency(s)) => s == d.entry_urgency && !names_an_urgency(s),
            Some(DecisionFault::Confidence(x)) => x == d.confidence && !at_least_zero_up_to(x, 1),
            Some(DecisionFault::NoDays) => d.target_dte == 0,
            Some(DecisionFault::Sizing(x)) => d.sizing_adjustment == Some(x)
                && !at_least_zero_up_to(x, 2),
            Some(DecisionFault::TooManyContracts { contracts, limit: most }) => contracts
                == d.contracts && most == limit && contracts > most,
            None => true,
        },
{
    law_strategies_have_twelve_names(d.strategy_type);
}

/// The decision with another sizing adjustment.
pub open spec fn with_sizing(d: DecisionView, factor: Option<Double>) -> DecisionView {
    DecisionView { sizing_adjustment: factor, ..d }
}

/// Without an adjustment the contracts of the decision are traded. An adjustment by a whole number
/// multiplies them, up to what was proposed: by zero there are none left, by one they stay.
pub proof fn law_whole_adjustments_multiply(d: DecisionView, limit: u32, factor: int)
    requires
        0 <= factor <= 2,
    ensures
        sized_contracts(with_sizing(d, None), limit) == d.contracts,
        sized_contracts(with_sizing(d, Some(Double::whole(factor))), limit) == if d.contracts
            * factor > limit {
            limit as int
        } else {
            d.contracts * factor
        },
{
    let n: int = d.contracts as int;
    lemma_whole_is_whole(n);
    lemma_whole_is_whole(factor);
    law_whole_numbers_are_exact(n);
    law_whole_numbers_are_exact(factor);
    let p: int = n * factor;
    assert(0 <= p <= 2 * n) by (nonlinear_arith)
        requires
            0 <= factor <= 2,
            n >= 0,
            p == n * factor,
    ;
    let product: Double = Double::whole(n).product(Double::whole(factor));
    lemma_whole_product(Double::whole(n), Double::whole(factor), n, factor);
    lemma_whole_is_whole(p);
    if p <= u32::MAX {
        lemma_whole_rounded(product, p);
    } else {
        law_whole_parts_are_cut_down(product);
        lemma_pow2_pos(1074);
        let t: int = product.truncated();
        if t < u32::MAX {
            assert(p < t + 1) by (nonlinear_arith)
                requires
                    one() > 0,
                    p * one() < (t + 1) * one(),
            ;
        }
    }
}

proof fn lemma_truncated_monotone(i: int, j: int)
    requires
        0 <= i <= j <= INF,
    ensures
        Double::of(false, i).truncated() <= Double::of(false, j).truncated(),
{
    let x: Double = Double::of(false, i);
    let y: Double = Double::of(false, j);
    assert(x.rank() == i && y.rank() == j && !x.negative() && !y.negative());
    law_whole_parts_are_cut_down(x);
    law_whole_parts_are_cut_down(y);
    if j < INF {
        lemma_pow2_pos(1074);
        lemma_magnitude_order(i, j);
        lemma_magnitude_order(j, i);
        let s: int = x.truncated();
        let t: int = y.truncated();
        if t < u32::MAX {
            assert(s <= t) by (nonlinear_arith)
                requires
                    one() > 0,
                    s * one() <= x.units(),
                    x.units() <= y.units(),
                    y.units() < (t + 1) * one(),
            ;
        }
    }
}

/// A larger adjustment never leads to fewer contracts.
pub proof fn law_larger_adjustments_trade_no_less(
    d: DecisionView,
    limit: u32,
    f: Double,
    g: Double,
)
    requires
        at_least_zero_up_to(f, 2),
        at_least_zero_up_to(g, 2),
        f.at_most(g),
    ensures
        sized_contracts(with_sizing(d, Some(f)), limit) <= sized_contracts(
            with_sizing(d, Some(g)),
            limit,
        ) <= limit,
{
    reveal(Double::product);
    let n: int = d.contracts as int;
    let c: Double = Double::whole(n);
    law_whole_numbers_are_exact(0);
    law_whole_numbers_are_exact(2);
    law_whole_numbers_are_exact(n);
    lemma_pow2_pos(1074);
    let a: Double = c.product(f);
    let b: Double = c.product(g);
    law_whole_parts_are_cut_down(a);
    law_whole_parts_are_cut_down(b);
    lemma_small(f);
    lemma_small(g);
    lemma_magnitude_order(c.rank(), 0);
    lemma_magnitude_order(f.rank(), 0);
    lemma_magnitude_order(g.rank(), 0);
    let u: int = magnitude(c.rank());
    let x: int = magnitude(f.rank());
    let y: int = magnitude(g.rank());
    assert(0 * one() == 0);
    assert(x <= y);
    assert(0 <= u * x <= u * y) by (nonlinear_arith)
        requires
            0 <= u,
            0 <= x <= y,
    ;
    lemma_nearest_monotone(u * x, u * y, one());
    law_every_quotient_rounds(u * x, one());
    law_every_quotient_rounds(u * y, one());
    let i: int = nearest(u * x, one());
    let j: int = nearest(u * y, one());
    assert(Double::of(true, i).negative());
    assert(!f.negative() ==> a == Double::of(false, i));
    assert(f.negative() ==> a == Double::of(true, i));
    assert(!g.negative() ==> b == Double::of(false, j));
    if !f.negative() && !g.negative() {
        lemma_truncated_monotone(i, j);
    } else if !f.negative() {
        assert(x == 0);
        assert(u * x == 0) by (nonlinear_arith)
            requires
                x == 0,
        ;
        lemma_nearest_exact(0, 0, one());
        lemma_nearest_unique(0, 0, one());
        assert(0int / one() == 0) by (nonlinear_arith)
            requires
                one() > 0,
        ;
        assert(a.truncated() == 0);
    }
}

/// A number from zero to two is finite, and has a sign only if it is zero.
proof fn lemma_small(x: Double)
    requires
        at_least_zero_up_to(x, 2),
    ensures
        x.finite(),
        x.negative() ==> x.rank() == 0,
        x.units() == magnitude(x.rank()),
{
    law_whole_numbers_are_exact(0);
    law_whole_numbers_are_exact(2);
    lemma_pow2_pos(1074);
    lemma_magnitude_order(x.rank(), 0);
    lemma_magnitude_order(INF as int, Double::whole(2).rank());
    assert(0 * one() == 0);
}

// ── Plans ───────────────────────────────────────────────────────────────────

/// A trade is made if and only if it is approved, for at least one contract, can be built, and
/// needs no more capital than there is; then it has the legs that the chain gives for the
/// strategy, the contracts and the days of the decision. Otherwise the reason is given: that it
/// is not approved, that there are no contracts, why it cannot be built, or what it needs and
/// what there is.
pub proof fn law_trades_are_made_if_they_can_be_paid_for(
    d: DecisionView,
    contracts: u32,
    cs: Seq<StrikeCandidate>,
    available: Double,
)
    ensures
        ({
            let built = trade_legs(d.strategy_type, cs, contracts, d.target_dte);
            match planned(d, contracts, cs, available) {
                Plan::Submit { legs } => {
                    &&& d.approved
                    &&& contracts >= 1
                    &&& built == Ok::<Seq<LegView>, BuildFault>(legs)
                    &&& capital(legs).at_most(available)
                },
                Plan::Skip { reason } => if !d.approved {
                    reason == "not_approved"@
                } else if contracts == 0 {
                    reason == "zero_contracts"@
                } else {
                    match built {
                        Err(fault) => reason == fault.text(),
                        Ok(legs) => !capital(legs).at_most(available) && reason
                            == "insufficient_capital: need "@ + fixed(capital(legs), 2) + ", have "@
                            + fixed(available, 2),
                    }
                },
            }
        }),
{
}

// ── Words ───────────────────────────────────────────────────────────────────

/// What is reported of an answer that is not acted on.
pub proof fn law_reports_of_answers(f: DecisionFault)
    ensures
        match f {
            DecisionFault::UnknownStrategy(s) => f.text() == "unknown strategy type: "@ + s,
            DecisionFault::UnknownUrgency(s) => f.text() == "unknown entry urgency: "@ + s,
            DecisionFault::Confidence(x) => f.text() == "confidence out of range: "@ + fixed(x, 3),
            DecisionFault::NoDays => f.text() == "target_dte must be at least 1"@,
            DecisionFault::Sizing(x) => f.text() == "sizing_adjustment out of range: "@ + fixed(
                x,
                3,
            ),
            DecisionFault::TooManyContracts { contracts, limit } => f.text() == "contracts "@
                + decimal(contracts as nat) + " exceed the proposed "@ + decimal(limit as nat),
        },
{
}

/// What is reported of an order that cannot be built: every report names the strategy.
pub proof fn law_reports_of_orders(f: BuildFault)
    ensures
        match f {
            BuildFault::StrikeOrder { lc, sc, sp, lp } => f.text()
                == "IronCondor: strike ordering invalid (lc="@ + fixed(lc, 0) + " sc="@ + fixed(
                sc,
                0,
            ) + " sp="@ + fixed(sp, 0) + " lp="@ + fixed(lp, 0) + ")"@,
            BuildFault::MissingStrikes { strategy, target_dte } => {
                &&& strategy == StrategyType::IronCondor ==> f.text()
                    == "IronCondor: could not find all 4 strikes near "@ + decimal(
                    target_dte as nat,
                ) + "-day expiry"@
                &&& strategy == StrategyType::Strangle ==> f.text()
                    == "Strangle: could not find both strikes"@
                &&& strategy == StrategyType::IronButterfly ==> f.text()
                    == "IronButterfly: could not find all 4 strikes"@
                &&& strategy == StrategyType::LongStraddle ==> f.text()
                    == "LongStraddle: could not find ATM strikes"@
                &&& strategy == StrategyType::LongStrangle ==> f.text()
                    == "LongStrangle: could not find OTM strikes"@
                &&& strategy == StrategyType::RiskReversal ==> f.text()
                    == "RiskReversal: could not find 25-delta strikes"@
                &&& strategy == StrategyType::Backspread ==> f.text() == "Backspread"@
                    + ": could not find strikes"@
            },
            BuildFault::NotAnOptionTrade => f.text()
                == "DeltaHedge: use futures execution path, not option chain"@,
            BuildFault::NothingToDo => f.text() == "DoNothing: no order to build"@,
            BuildFault::UnknownStrategy(name) => f.text() == "Unknown strategy type: "@ + name,
        },
{
}

} // verus!
