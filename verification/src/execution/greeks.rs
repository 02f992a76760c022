//! The Greeks that a proposed order would add.

use super::strikes::{closest_delta, StrikeCandidate, DTE_TOLERANCE};
use super::{
    all_searchable, can_search_all, leg_choice, leg_rules, leg_rules_of, leg_searchable, LegRule,
};
use crate::num::double::Double;
use crate::orders::strategy::{strategy_named, StrategyType};
use crate::orders::EntryGreeks;
use vstd::prelude::*;

verus! {

/// Whether the Greeks of a strategy are estimated.
pub open spec fn greeks_estimated(strategy: StrategyType) -> bool {
    strategy is IronCondor || strategy is Strangle || strategy is LongStraddle
        || strategy is LongStrangle || strategy is RiskReversal
}

/// The legs whose Greeks are added up.
pub open spec fn estimated_rules(name: Seq<char>) -> Seq<LegRule> {
    match strategy_named(name) {
        Some(strategy) => if greeks_estimated(strategy) {
            leg_rules(strategy)
        } else {
            Seq::empty()
        },
        None => Seq::empty(),
    }
}

/// One Greek of a leg, with its sign and for all shares.
pub open spec fn leg_greek(value: Double, buy: bool, shares: Double) -> Double {
    Double::whole(
        if buy {
            1
        } else {
            -1
        },
    ).product(value).product(shares)
}

/// Greeks after those of one more leg have been added.
pub open spec fn with_leg(
    acc: EntryGreeks,
    c: StrikeCandidate,
    buy: bool,
    shares: Double,
) -> EntryGreeks {
    EntryGreeks {
        delta: acc.delta.sum(leg_greek(c.delta, buy, shares)),
        gamma: acc.gamma.sum(leg_greek(c.gamma, buy, shares)),
        vega: acc.vega.sum(leg_greek(c.vega, buy, shares)),
        theta: acc.theta.sum(leg_greek(c.theta, buy, shares)),
    }
}

/// The Greeks of the legs that the chain has an option for, added up from the first to the last.
pub open spec fn estimate(
    cs: Seq<StrikeCandidate>,
    rules: Seq<LegRule>,
    shares: Double,
    target_dte: u32,
) -> EntryGreeks
    decreases rules.len(),
{
    if rules.len() == 0 {
        let z = Double::of(false, 0);
        EntryGreeks { delta: z, gamma: z, vega: z, theta: z }
    } else {
        let acc = estimate(cs, rules.drop_last(), shares, target_dte);
        let buy = rules.last().buy;
        match leg_choice(cs, rules.last(), target_dte) {
            Some(i) => with_leg(acc, cs[i], buy, shares),
            None => acc,
        }
    }
}

fn signed_greek(value: Double, buy: bool, shares: Double) -> (r: Double)
    ensures
        r == leg_greek(value, buy, shares),
{
    let sign: Double = if buy {
        Double::from_i64(1)
    } else {
        Double::from_i64(-1)
    };
    sign.times(value).times(shares)
}

fn add_leg(acc: EntryGreeks, c: &StrikeCandidate, buy: bool, shares: Double) -> (r: EntryGreeks)
    ensures
        r == with_leg(acc, *c, buy, shares),
{
    EntryGreeks {
        delta: acc.delta.plus(signed_greek(c.delta, buy, shares)),
        gamma: acc.gamma.plus(signed_greek(c.gamma, buy, shares)),
        vega: acc.vega.plus(signed_greek(c.vega, buy, shares)),
        theta: acc.theta.plus(signed_greek(c.theta, buy, shares)),
    }
}

/// Whether the Greeks of a strategy can be estimated.
pub fn can_estimate(strategy_type: &str, candidates: &[StrikeCandidate], target_dte: u32) -> (r:
    bool)
    ensures
        r == all_searchable(candidates@, estimated_rules(strategy_type@), target_dte),
{
    can_search_all(candidates, &estimated_rules_of(strategy_type), target_dte)
}

fn estimated_rules_of(strategy_type: &str) -> (r: Vec<LegRule>)
    ensures
        r@ == estimated_rules(strategy_type@),
{
    match StrategyType::named(strategy_type) {
        Some(strategy) => match strategy {
            StrategyType::IronCondor
            | StrategyType::Strangle
            | StrategyType::LongStraddle
            | StrategyType::LongStrangle
            | StrategyType::RiskReversal => leg_rules_of(strategy),
            _ => Vec::new(),
        },
        None => Vec::new(),
    }
}

/// The Greeks that a trade would add to the portfolio.
pub fn estimate_order_greeks(
    strategy_type: &str,
    candidates: &[StrikeCandidate],
    contracts: u32,
    target_dte: u32,
) -> (r: EntryGreeks)
    requires
        all_searchable(candidates@, estimated_rules(strategy_type@), target_dte),
    ensures
        r == estimate(
            candidates@,
            estimated_rules(strategy_type@),
            Double::whole(contracts as int).product(Double::whole(100)),
            target_dte,
        ),
{
    let rules: Vec<LegRule> = estimated_rules_of(strategy_type);
    let shares: Double = Double::from_u64(contracts as u64).times(Double::from_u64(100));
    let zero: Double = Double::zero();
    let mut acc: EntryGreeks = EntryGreeks { delta: zero, gamma: zero, vega: zero, theta: zero };
    let mut k: usize = 0;
    while k < rules.len()
        invariant
            k <= rules.len(),
            all_searchable(candidates@, rules@, target_dte),
            acc == estimate(candidates@, rules@.take(k as int), shares, target_dte),
        decreases rules.len() - k,
    {
        let rule: LegRule = rules[k];
        assert(leg_searchable(candidates@, rules@[k as int], target_dte));
        assert(rules@.take(k + 1).drop_last() == rules@.take(k as int));
        match closest_delta(
            candidates,
            Double::hundredths(rule.delta),
            rule.call,
            target_dte,
            DTE_TOLERANCE,
        ) {
            Some(c) => {
                acc = add_leg(acc, c, rule.buy, shares);
            },
            None => {},
        }
        k = k + 1;
    }
    assert(rules@.take(k as int) == rules@);
    acc
}

} // verus!
