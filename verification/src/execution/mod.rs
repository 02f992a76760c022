//! From a decision and an option chain to an order.

pub mod errors;
pub mod funding;
pub mod funding_laws;
pub mod greeks;
pub mod laws;
pub mod option_laws;
pub mod plan;
pub mod plan_laws;
pub mod strategy_laws;
pub mod strikes;

use crate::num::double::Double;
use crate::orders::strategy::{strategy_named, StrategyType};
use crate::orders::{
    leg_views, new_order, EntryGreeks, Instrument, LegView, Order, OrderLeg, OrderSide, OrderType,
    TimeInForce,
};
use crate::outside::random_id;
use crate::text::cut_allowed;
use errors::BuildFault;
use strikes::{can_search, closest, closest_index, searchable, DTE_TOLERANCE};
use vstd::prelude::*;

pub use errors::BuildError;
pub use funding::required_capital;
pub use greeks::estimate_order_greeks;
pub use strikes::{closest_delta, StrikeCandidate};

verus! {

/// What one leg of a strategy is made of.
#[derive(Clone, Copy, Debug, PartialEq, Eq, Structural)]
pub struct LegRule {
    /// The delta to look for, in hundredths.
    pub delta: i64,
    pub call: bool,
    pub buy: bool,
    /// Options of this leg for one contract of the strategy.
    pub ratio: u64,
}

// ── Legs ────────────────────────────────────────────────────────────────────

/// A limit order for an option, at the middle of its market.
pub open spec fn option_leg(c: StrikeCandidate, side: OrderSide, quantity: u64) -> LegView {
    LegView {
        instrument: Instrument::EquityOption,
        symbol: c.occ(),
        side,
        quantity,
        order_type: OrderType::Limit,
        limit_price: Some(c.middle()),
        stop_price: None,
    }
}

pub fn buy_leg(c: &StrikeCandidate, qty: u64) -> (r: OrderLeg)
    requires
        cut_allowed(c.expiration@, 2),
    ensures
        r@ == option_leg(*c, OrderSide::Buy, qty),
{
    OrderLeg {
        instrument: Instrument::EquityOption,
        symbol: c.occ_symbol(),
        side: OrderSide::Buy,
        quantity: qty,
        order_type: OrderType::Limit,
        limit_price: Some(c.mid_price()),
        stop_price: None,
    }
}

pub fn sell_leg(c: &StrikeCandidate, qty: u64) -> (r: OrderLeg)
    requires
        cut_allowed(c.expiration@, 2),
    ensures
        r@ == option_leg(*c, OrderSide::Sell, qty),
{
    OrderLeg {
        instrument: Instrument::EquityOption,
        symbol: c.occ_symbol(),
        side: OrderSide::Sell,
        quantity: qty,
        order_type: OrderType::Limit,
        limit_price: Some(c.mid_price()),
        stop_price: None,
    }
}

pub open spec fn leg_rule(delta: int, call: bool, buy: bool, ratio: u64) -> LegRule {
    LegRule { delta: delta as i64, call, buy, ratio }
}

/// The legs that a strategy is made of. None, if it is not made of options of one chain.
pub open spec fn leg_rules(strategy: StrategyType) -> Seq<LegRule> {
    match strategy {
        // Short about one standard deviation out, with protection at about two.
        StrategyType::IronCondor => seq![
            leg_rule(16, true, false, 1),
            leg_rule(5, true, true, 1),
            leg_rule(-16, false, false, 1),
            leg_rule(-5, false, true, 1),
        ],
        StrategyType::Strangle => seq![
            leg_rule(20, true, false, 1),
            leg_rule(-20, false, false, 1),
        ],
        // Short at the money, with wings.
        StrategyType::IronButterfly => seq![
            leg_rule(50, true, false, 1),
            leg_rule(-50, false, false, 1),
            leg_rule(10, true, true, 1),
            leg_rule(-10, false, true, 1),
        ],
        StrategyType::LongStraddle => seq![
            leg_rule(50, true, true, 1),
            leg_rule(-50, false, true, 1),
        ],
        StrategyType::LongStrangle => seq![
            leg_rule(30, true, true, 1),
            leg_rule(-30, false, true, 1),
        ],
        // One short at the money for two long out of it.
        StrategyType::Backspread => seq![
            leg_rule(50, true, false, 1),
            leg_rule(25, true, true, 2),
        ],
        StrategyType::RiskReversal => seq![
            leg_rule(25, true, true, 1),
            leg_rule(-25, false, false, 1),
        ],
        _ => Seq::empty(),
    }
}

fn rule(delta: i64, call: bool, buy: bool, ratio: u64) -> (r: LegRule)
    ensures
        r == leg_rule(delta as int, call, buy, ratio),
{
    LegRule { delta, call, buy, ratio }
}

fn leg_rules_of(strategy: StrategyType) -> (r: Vec<LegRule>)
    ensures
        r@ == leg_rules(strategy),
{
    let r: Vec<LegRule> = match strategy {
        StrategyType::IronCondor => vec![
            rule(16, true, false, 1),
            rule(5, true, true, 1),
            rule(-16, false, false, 1),
            rule(-5, false, true, 1),
        ],
        StrategyType::Strangle => vec![rule(20, true, false, 1), rule(-20, false, false, 1)],
        StrategyType::IronButterfly => vec![
            rule(50, true, false, 1),
            rule(-50, false, false, 1),
            rule(10, true, true, 1),
            rule(-10, false, true, 1),
        ],
        StrategyType::LongStraddle => vec![rule(50, true, true, 1), rule(-50, false, true, 1)],
        StrategyType::LongStrangle => vec![rule(30, true, true, 1), rule(-30, false, true, 1)],
        StrategyType::Backspread => vec![rule(50, true, false, 1), rule(25, true, true, 2)],
        StrategyType::RiskReversal => vec![rule(25, true, true, 1), rule(-25, false, false, 1)],
        _ => Vec::new(),
    };
    assert(r@ =~= leg_rules(strategy));
    r
}

/// The option that a leg is made of.
pub open spec fn leg_choice(
    cs: Seq<StrikeCandidate>,
    rule: LegRule,
    target_dte: u32,
) -> Option<int> {
    closest(cs, Double::percent(rule.delta as int), rule.call, target_dte, DTE_TOLERANCE)
}

/// Whether the chain can be searched for a leg.
pub open spec fn leg_searchable(
    cs: Seq<StrikeCandidate>,
    rule: LegRule,
    target_dte: u32,
) -> bool {
    searchable(cs, Double::percent(rule.delta as int), rule.call, target_dte, DTE_TOLERANCE)
}

pub open spec fn all_searchable(
    cs: Seq<StrikeCandidate>,
    rules: Seq<LegRule>,
    target_dte: u32,
) -> bool {
    forall|k: int| 0 <= k < rules.len() ==> leg_searchable(cs, #[trigger] rules[k], target_dte)
}

/// Whether the chain has an option for every leg.
pub open spec fn all_found(
    cs: Seq<StrikeCandidate>,
    rules: Seq<LegRule>,
    target_dte: u32,
) -> bool {
    forall|k: int|
        0 <= k < rules.len() ==> leg_choice(cs, #[trigger] rules[k], target_dte) is Some
}

/// The option of each leg.
pub open spec fn leg_option(
    cs: Seq<StrikeCandidate>,
    rules: Seq<LegRule>,
    target_dte: u32,
    k: int,
) -> StrikeCandidate {
    cs[leg_choice(cs, rules[k], target_dte)->0]
}

// ── Orders ──────────────────────────────────────────────────────────────────

/// Whether the strikes of an iron condor stand in the right order: the options that are bought
/// for protection lie outside those that are sold.
pub open spec fn condor_in_order(
    cs: Seq<StrikeCandidate>,
    rules: Seq<LegRule>,
    target_dte: u32,
) -> bool {
    let sc = leg_option(cs, rules, target_dte, 0).strike;
    let lc = leg_option(cs, rules, target_dte, 1).strike;
    let sp = leg_option(cs, rules, target_dte, 2).strike;
    let lp = leg_option(cs, rules, target_dte, 3).strike;
    sc.at_most(lc) && lp.at_most(sp)
}

/// Why no order can be built for a strategy, if none can.
pub open spec fn trade_fault(
    name: Seq<char>,
    cs: Seq<StrikeCandidate>,
    target_dte: u32,
) -> Option<BuildFault> {
    match strategy_named(name) {
        Some(StrategyType::DeltaHedge) => Some(BuildFault::NotAnOptionTrade),
        Some(StrategyType::DoNothing) => Some(BuildFault::NothingToDo),
        Some(strategy) => {
            let rules = leg_rules(strategy);
            if rules.len() == 0 {
                Some(BuildFault::UnknownStrategy(name))
            } else if !all_found(cs, rules, target_dte) {
                Some(BuildFault::MissingStrikes { strategy, target_dte })
            } else if strategy is IronCondor && !condor_in_order(cs, rules, target_dte) {
                Some(
                    BuildFault::StrikeOrder {
                        lc: leg_option(cs, rules, target_dte, 1).strike,
                        sc: leg_option(cs, rules, target_dte, 0).strike,
                        sp: leg_option(cs, rules, target_dte, 2).strike,
                        lp: leg_option(cs, rules, target_dte, 3).strike,
                    },
                )
            } else {
                None
            }
        },
        None => Some(BuildFault::UnknownStrategy(name)),
    }
}

/// The legs of a trade, or why there are none.
pub open spec fn trade_legs(
    name: Seq<char>,
    cs: Seq<StrikeCandidate>,
    contracts: u32,
    target_dte: u32,
) -> Result<Seq<LegView>, BuildFault> {
    match trade_fault(name, cs, target_dte) {
        Some(fault) => Err(fault),
        None => Ok(legs_of(cs, leg_rules(strategy_named(name)->0), contracts, target_dte)),
    }
}

/// One leg for each rule, in the order of the rules.
pub open spec fn legs_of(
    cs: Seq<StrikeCandidate>,
    rules: Seq<LegRule>,
    contracts: u32,
    target_dte: u32,
) -> Seq<LegView> {
    Seq::new(
        rules.len(),
        |k: int|
            option_leg(
                leg_option(cs, rules, target_dte, k),
                if rules[k].buy {
                    OrderSide::Buy
                } else {
                    OrderSide::Sell
                },
                (contracts * rules[k].ratio) as u64,
            ),
    )
}

/// Whether a trade can be looked up: the chain can be searched for every leg, and the options
/// that make up the legs have an expiration whose first two bytes can be cut off.
pub open spec fn buildable(name: Seq<char>, cs: Seq<StrikeCandidate>, target_dte: u32) -> bool {
    match strategy_named(name) {
        Some(strategy) => {
            let rules = leg_rules(strategy);
            &&& all_searchable(cs, rules, target_dte)
            &&& trade_fault(name, cs, target_dte) is None ==> all_cuttable(cs, rules, target_dte)
        },
        None => true,
    }
}

pub open spec fn all_cuttable(
    cs: Seq<StrikeCandidate>,
    rules: Seq<LegRule>,
    target_dte: u32,
) -> bool {
    forall|k: int|
        0 <= k < rules.len() ==> cut_allowed(
            (#[trigger] leg_option(cs, rules, target_dte, k)).expiration@,
            2,
        )
}

/// Positions of the options of all legs, if there is one for each.
fn find_legs(candidates: &[StrikeCandidate], rules: &Vec<LegRule>, target_dte: u32) -> (r: Option<
    Vec<usize>,
>)
    requires
        all_searchable(candidates@, rules@, target_dte),
    ensures
        match r {
            Some(found) => {
                &&& all_found(candidates@, rules@, target_dte)
                &&& found.len() == rules.len()
                &&& forall|k: int|
                    0 <= k < rules.len() ==> #[trigger] found[k] < candidates.len() && leg_choice(
                        candidates@,
                        rules[k],
                        target_dte,
                    ) == Some(found[k] as int)
            },
            None => !all_found(candidates@, rules@, target_dte),
        },
{
    let mut found: Vec<usize> = Vec::new();
    let mut k: usize = 0;
    while k < rules.len()
        invariant
            k <= rules.len(),
            found.len() == k,
            all_searchable(candidates@, rules@, target_dte),
            forall|j: int|
                0 <= j < k ==> #[trigger] found[j] < candidates.len() && leg_choice(
                    candidates@,
                    rules[j],
                    target_dte,
                ) == Some(found[j] as int),
        decreases rules.len() - k,
    {
        let rule: LegRule = rules[k];
        assert(leg_searchable(candidates@, rules@[k as int], target_dte));
        match closest_index(
            candidates,
            Double::hundredths(rule.delta),
            rule.call,
            target_dte,
            DTE_TOLERANCE,
        ) {
            Some(i) => {
                found.push(i);
            },
            None => {
                assert(leg_choice(candidates@, rules@[k as int], target_dte) is None);
                return None;
            },
        }
        k = k + 1;
    }
    assert forall|j: int| 0 <= j < rules@.len() implies leg_choice(
        candidates@,
        #[trigger] rules@[j],
        target_dte,
    ) is Some by {
        assert(found[j] < candidates.len());
    }
    Some(found)
}

/// What is wrong with the strikes of an iron condor, if anything is.
fn condor_fault(
    candidates: &[StrikeCandidate],
    rules: &Vec<LegRule>,
    found: &Vec<usize>,
    target_dte: u32,
) -> (r: Option<BuildError>)
    requires
        rules.len() == 4,
        found.len() == 4,
        forall|k: int|
            0 <= k < rules.len() ==> #[trigger] found[k] < candidates.len() && leg_choice(
                candidates@,
                rules[k],
                target_dte,
            ) == Some(found[k] as int),
    ensures
        match r {
            Some(e) => !condor_in_order(candidates@, rules@, target_dte) && e@ == (
            BuildFault::StrikeOrder {
                lc: leg_option(candidates@, rules@, target_dte, 1).strike,
                sc: leg_option(candidates@, rules@, target_dte, 0).strike,
                sp: leg_option(candidates@, rules@, target_dte, 2).strike,
                lp: leg_option(candidates@, rules@, target_dte, 3).strike,
            }),
            None => condor_in_order(candidates@, rules@, target_dte),
        },
{
    assert(found[0] < candidates.len() && found[1] < candidates.len() && found[2]
        < candidates.len() && found[3] < candidates.len());
    let sc: Double = candidates[found[0]].strike;
    let lc: Double = candidates[found[1]].strike;
    let sp: Double = candidates[found[2]].strike;
    let lp: Double = candidates[found[3]].strike;
    if sc.le(lc) && lp.le(sp) {
        None
    } else {
        Some(BuildError::StrikeOrder { lc, sc, sp, lp })
    }
}

/// What was decided about the strikes of a trade.
enum Lookup {
    Legs(Vec<LegRule>, Vec<usize>),
    Failed(BuildError),
}

/// Looks up the options of a trade.
fn look_up(name: &str, candidates: &[StrikeCandidate], target_dte: u32) -> (r: Lookup)
    requires
        strategy_named(name@) matches Some(strategy) ==> all_searchable(
            candidates@,
            leg_rules(strategy),
            target_dte,
        ),
    ensures
        match r {
            Lookup::Legs(rules, found) => {
                &&& strategy_named(name@) is Some
                &&& rules@ == leg_rules(strategy_named(name@)->0)
                &&& found.len() == rules.len()
                &&& forall|k: int|
                    0 <= k < rules.len() ==> #[trigger] found[k] < candidates.len() && leg_choice(
                        candidates@,
                        rules[k],
                        target_dte,
                    ) == Some(found[k] as int)
                &&& trade_fault(name@, candidates@, target_dte) is None
            },
            Lookup::Failed(e) => trade_fault(name@, candidates@, target_dte) == Some(e@),
        },
{
    let strategy: StrategyType = match StrategyType::named(name) {
        Some(strategy) => strategy,
        None => {
            return Lookup::Failed(BuildError::UnknownStrategy(name.to_string()));
        },
    };
    match strategy {
        StrategyType::DeltaHedge => {
            return Lookup::Failed(BuildError::NotAnOptionTrade);
        },
        StrategyType::DoNothing => {
            return Lookup::Failed(BuildError::NothingToDo);
        },
        _ => {},
    }
    let rules: Vec<LegRule> = leg_rules_of(strategy);
    if rules.len() == 0 {
        return Lookup::Failed(BuildError::UnknownStrategy(name.to_string()));
    }
    let found: Vec<usize> = match find_legs(candidates, &rules, target_dte) {
        Some(found) => found,
        None => {
            return Lookup::Failed(BuildError::MissingStrikes { strategy, target_dte });
        },
    };
    match strategy {
        StrategyType::IronCondor => match condor_fault(candidates, &rules, &found, target_dte) {
            Some(e) => Lookup::Failed(e),
            None => Lookup::Legs(rules, found),
        },
        _ => Lookup::Legs(rules, found),
    }
}

/// Whether a trade can be looked up and its order built.
pub fn can_build(strategy_type: &str, candidates: &[StrikeCandidate], target_dte: u32) -> (r: bool)
    ensures
        r == buildable(strategy_type@, candidates@, target_dte),
{
    let strategy: StrategyType = match StrategyType::named(strategy_type) {
        Some(strategy) => strategy,
        None => {
            return true;
        },
    };
    if !can_search_all(candidates, &leg_rules_of(strategy), target_dte) {
        return false;
    }
    match look_up(strategy_type, candidates, target_dte) {
        Lookup::Legs(rules, found) => {
            let mut k: usize = 0;
            while k < rules.len()
                invariant
                    k <= rules.len(),
                    found.len() == rules.len(),
                    strategy_named(strategy_type@) == Some(strategy),
                    rules@ == leg_rules(strategy),
                    forall|j: int|
                        0 <= j < rules.len() ==> #[trigger] found[j] < candidates.len()
                            && leg_choice(candidates@, rules[j], target_dte) == Some(
                            found[j] as int,
                        ),
                    trade_fault(strategy_type@, candidates@, target_dte) is None,
                    forall|j: int|
                        0 <= j < k ==> cut_allowed(
                            (#[trigger] leg_option(candidates@, rules@, target_dte, j)).expiration@,
                            2,
                        ),
                decreases rules.len() - k,
            {
                assert(found[k as int] < candidates.len());
                let c: &StrikeCandidate = &candidates[found[k]];
                assert(*c == leg_option(candidates@, rules@, target_dte, k as int));
                if !c.expiration.as_str().is_char_boundary(2) {
                    return false;
                }
                k = k + 1;
            }
            true
        },
        Lookup::Failed(_) => true,
    }
}

fn can_search_all(candidates: &[StrikeCandidate], rules: &Vec<LegRule>, target_dte: u32) -> (r:
    bool)
    ensures
        r == all_searchable(candidates@, rules@, target_dte),
{
    let mut k: usize = 0;
    while k < rules.len()
        invariant
            k <= rules.len(),
            forall|j: int|
                0 <= j < k ==> leg_searchable(candidates@, #[trigger] rules@[j], target_dte),
        decreases rules.len() - k,
    {
        let rule: LegRule = rules[k];
        if !can_search(
            candidates,
            Double::hundredths(rule.delta),
            rule.call,
            target_dte,
            DTE_TOLERANCE,
        ) {
            assert(!leg_searchable(candidates@, rules@[k as int], target_dte));
            return false;
        }
        k = k + 1;
    }
    true
}

/// Builds the order of a strategy from the options of a chain.
pub fn build_order(
    strategy_type: &str,
    candidates: &[StrikeCandidate],
    contracts: u32,
    target_dte: u32,
    strategy_id: &str,
    greeks: EntryGreeks,
) -> (r: Result<Order, BuildError>)
    requires
        buildable(strategy_type@, candidates@, target_dte),
    ensures
        match trade_legs(strategy_type@, candidates@, contracts, target_dte) {
            Ok(legs) => r matches Ok(o) && random_id(o.id) && o@ == new_order(
                o.id,
                o.created_at,
                strategy_id@,
                legs,
                TimeInForce::Day,
                greeks,
            ),
            Err(fault) => r matches Err(e) && e@ == fault,
        },
{
    let (rules, found) = match look_up(strategy_type, candidates, target_dte) {
        Lookup::Legs(rules, found) => (rules, found),
        Lookup::Failed(e) => {
            return Err(e);
        },
    };
    let ghost wanted: Seq<LegView> = legs_of(candidates@, rules@, contracts, target_dte);
    let mut legs: Vec<OrderLeg> = Vec::new();
    let mut k: usize = 0;
    while k < rules.len()
        invariant
            k <= rules.len(),
            found.len() == rules.len(),
            rules@ == leg_rules(strategy_named(strategy_type@)->0),
            all_cuttable(candidates@, rules@, target_dte),
            forall|j: int|
                0 <= j < rules.len() ==> #[trigger] found[j] < candidates.len() && leg_choice(
                    candidates@,
                    rules[j],
                    target_dte,
                ) == Some(found[j] as int),
            wanted == legs_of(candidates@, rules@, contracts, target_dte),
            leg_views(legs@) == wanted.take(k as int),
        decreases rules.len() - k,
    {
        let ghost before: Seq<OrderLeg> = legs@;
        assert(found[k as int] < candidates.len());
        let c: &StrikeCandidate = &candidates[found[k]];
        assert(*c == leg_option(candidates@, rules@, target_dte, k as int));
        let rule: LegRule = rules[k];
        assert(rule.ratio <= 2);
        assert(contracts * rule.ratio <= 2 * contracts) by (nonlinear_arith)
            requires
                rule.ratio <= 2,
        ;
        let quantity: u64 = contracts as u64 * rule.ratio;
        let leg: OrderLeg = if rule.buy {
            buy_leg(c, quantity)
        } else {
            sell_leg(c, quantity)
        };
        legs.push(leg);
        assert(leg_views(legs@) =~= leg_views(before).push(leg@));
        assert(leg_views(legs@) =~= wanted.take(k + 1));
        k = k + 1;
    }
    assert(wanted.take(k as int) == wanted);
    Ok(Order::new(strategy_id, legs, TimeInForce::Day, greeks))
}

} // verus!
