//! What each strategy is made of, in numbers.

use super::errors::BuildFault;
use super::strikes::{
    closest, delta_miss, eligible, is_closest, lemma_closest_unique, StrikeCandidate, DTE_TOLERANCE,
};
use super::{
    all_found, condor_in_order, leg_choice, leg_option, leg_rules, legs_of, trade_fault, trade_legs,
    LegRule,
};
use crate::num::double::Double;
use crate::orders::strategy::{law_names_are_distinct, strategy_named, StrategyType};
use crate::orders::{Instrument, LegView, OrderSide, OrderType};
use vstd::prelude::*;

verus! {

// ── Choice of an option ─────────────────────────────────────────────────────

/// A number of days as a signed 32-bit number, which wraps.
pub open spec fn wrapped_days(days: u32) -> int {
    if days < 0x8000_0000 {
        days as int
    } else {
        days - 0x1_0000_0000
    }
}

/// Whether an option may be traded: it has the wanted right, expires at most `tol` days off the
/// target, has a spread of at most 25 percent, a bid of at least five cents and an open interest
/// of at least 100.
pub open spec fn may_trade(c: StrikeCandidate, call: bool, target_dte: u32, tol: i32) -> bool {
    &&& (c.right@ == "call"@) == call
    &&& c.dte - wrapped_days(target_dte) <= tol
    &&& wrapped_days(target_dte) - c.dte <= tol
    &&& c.spread_pct.at_most(Double::percent(25))
    &&& Double::percent(5).at_most(c.bid)
    &&& c.open_interest >= 100
}

/// Distance of a delta from a target.
pub open spec fn off(c: StrikeCandidate, target: Double) -> Double {
    c.delta.sum(target.opposite()).absolute()
}

/// Whether an option is the first of those that may be traded and have a delta nearest to a
/// target.
pub open spec fn is_pick(
    cs: Seq<StrikeCandidate>,
    i: int,
    target: Double,
    call: bool,
    target_dte: u32,
    tol: i32,
) -> bool {
    &&& 0 <= i < cs.len()
    &&& may_trade(cs[i], call, target_dte, tol)
    &&& forall|j: int|
        0 <= j < cs.len() && may_trade(#[trigger] cs[j], call, target_dte, tol) ==> {
            &&& !off(cs[j], target).below(off(cs[i], target))
            &&& j < i ==> off(cs[i], target).below(off(cs[j], target))
        }
}

/// Whether a chain has options that may be traded, all with a delta that can be compared.
pub open spec fn can_pick(
    cs: Seq<StrikeCandidate>,
    target: Double,
    call: bool,
    target_dte: u32,
    tol: i32,
) -> bool {
    &&& exists|i: int| 0 <= i < cs.len() && may_trade(#[trigger] cs[i], call, target_dte, tol)
    &&& forall|i: int|
        0 <= i < cs.len() && may_trade(#[trigger] cs[i], call, target_dte, tol) ==> !off(
            cs[i],
            target,
        ).nan()
}

proof fn lemma_may_trade(c: StrikeCandidate, call: bool, target_dte: u32, tol: i32)
    ensures
        may_trade(c, call, target_dte, tol) <==> eligible(c, call, target_dte, tol),
{
}

proof fn lemma_is_pick(
    cs: Seq<StrikeCandidate>,
    i: int,
    target: Double,
    call: bool,
    target_dte: u32,
    tol: i32,
)
    ensures
        is_pick(cs, i, target, call, target_dte, tol) <==> is_closest(
            cs,
            target,
            call,
            target_dte,
            tol,
            i,
        ),
{
    assert forall|j: int| 0 <= j < cs.len() implies may_trade(
        #[trigger] cs[j],
        call,
        target_dte,
        tol,
    ) == eligible(cs[j], call, target_dte, tol) by {
        lemma_may_trade(cs[j], call, target_dte, tol);
    }
    assert forall|j: int| 0 <= j < cs.len() implies off(#[trigger] cs[j], target) == delta_miss(
        cs[j],
        target,
    ) by {}
    if is_pick(cs, i, target, call, target_dte, tol) {
        assert forall|j: int|
            0 <= j < cs.len() && #[trigger] eligible(cs[j], call, target_dte, tol) implies {
            &&& !delta_miss(cs[j], target).below(delta_miss(cs[i], target))
            &&& j < i ==> delta_miss(cs[i], target).below(delta_miss(cs[j], target))
        } by {
            assert(may_trade(cs[j], call, target_dte, tol));
        }
    }
    if is_closest(cs, target, call, target_dte, tol, i) {
        assert forall|j: int|
            0 <= j < cs.len() && may_trade(#[trigger] cs[j], call, target_dte, tol) implies {
            &&& !off(cs[j], target).below(off(cs[i], target))
            &&& j < i ==> off(cs[i], target).below(off(cs[j], target))
        } by {
            assert(eligible(cs[j], call, target_dte, tol));
        }
    }
}

/// The nearest among the first options of a chain.
proof fn lemma_nearest_of(
    cs: Seq<StrikeCandidate>,
    n: int,
    target: Double,
    call: bool,
    target_dte: u32,
    tol: i32,
) -> (best: int)
    requires
        0 <= n <= cs.len(),
        exists|i: int| 0 <= i < n && may_trade(#[trigger] cs[i], call, target_dte, tol),
        forall|i: int|
            0 <= i < n && may_trade(#[trigger] cs[i], call, target_dte, tol) ==> !off(
                cs[i],
                target,
            ).nan(),
    ensures
        0 <= best < n,
        may_trade(cs[best], call, target_dte, tol),
        forall|j: int|
            0 <= j < n && may_trade(#[trigger] cs[j], call, target_dte, tol) ==> {
                &&& !off(cs[j], target).below(off(cs[best], target))
                &&& j < best ==> off(cs[best], target).below(off(cs[j], target))
            },
    decreases n,
{
    let last: int = n - 1;
    if exists|i: int| 0 <= i < last && may_trade(#[trigger] cs[i], call, target_dte, tol) {
        let before: int = lemma_nearest_of(cs, last, target, call, target_dte, tol);
        if may_trade(cs[last], call, target_dte, tol) && off(cs[last], target).below(
            off(cs[before], target),
        ) {
            last
        } else {
            before
        }
    } else {
        let i: int = choose|i: int|
            0 <= i < n && may_trade(#[trigger] cs[i], call, target_dte, tol);
        assert(i == last);
        last
    }
}

/// The option that is chosen may be traded, and no other that may be traded has a delta nearer to
/// the target; of equally near ones it is the first. One is chosen wherever there is one whose
/// delta can be compared, and none where there is none.
pub proof fn law_the_nearest_delta_is_chosen(
    cs: Seq<StrikeCandidate>,
    target: Double,
    call: bool,
    target_dte: u32,
    tol: i32,
)
    ensures
        closest(cs, target, call, target_dte, tol) matches Some(i) ==> is_pick(
            cs,
            i,
            target,
            call,
            target_dte,
            tol,
        ),
        can_pick(cs, target, call, target_dte, tol) ==> closest(cs, target, call, target_dte, tol)
            is Some,
        (forall|i: int|
            0 <= i < cs.len() ==> !may_trade(#[trigger] cs[i], call, target_dte, tol)) ==> closest(
            cs,
            target,
            call,
            target_dte,
            tol,
        ) is None,
        forall|i: int| #[trigger]
            is_pick(cs, i, target, call, target_dte, tol) ==> closest(
                cs,
                target,
                call,
                target_dte,
                tol,
            ) == Some(i),
{
    assert forall|i: int| #[trigger]
        is_pick(cs, i, target, call, target_dte, tol) implies closest(
        cs,
        target,
        call,
        target_dte,
        tol,
    ) == Some(i) by {
        lemma_is_pick(cs, i, target, call, target_dte, tol);
        lemma_closest_unique(cs, target, call, target_dte, tol, i);
    }
    match closest(cs, target, call, target_dte, tol) {
        Some(i) => {
            assert(is_closest(cs, target, call, target_dte, tol, i));
            lemma_is_pick(cs, i, target, call, target_dte, tol);
        },
        None => {
            if can_pick(cs, target, call, target_dte, tol) {
                let i: int = lemma_nearest_of(cs, cs.len() as int, target, call, target_dte, tol);
                assert(is_pick(cs, i, target, call, target_dte, tol));
            }
        },
    }
}

// ── Legs ────────────────────────────────────────────────────────────────────

/// Whether a leg is a limit order for an option, at the middle between bid and ask.
pub open spec fn made_of(
    leg: LegView,
    c: StrikeCandidate,
    side: OrderSide,
    quantity: int,
) -> bool {
    &&& leg.instrument == Instrument::EquityOption
    &&& leg.symbol == c.occ()
    &&& leg.side == side
    &&& leg.quantity == quantity
    &&& leg.order_type == OrderType::Limit
    &&& leg.limit_price == Some(c.bid.sum(c.ask).quotient(Double::whole(2)))
    &&& leg.stop_price is None
}

/// What to look for: the delta in hundredths, and the right.
#[verifier::opaque]
pub open spec fn pick_of(
    cs: Seq<StrikeCandidate>,
    i: int,
    hundredths: int,
    call: bool,
    target_dte: u32,
) -> bool {
    is_pick(cs, i, Double::percent(hundredths), call, target_dte, 7)
}

/// Whether a leg is made of the option of a chain that is liquid, expires within seven days of
/// the target, and has the delta nearest to a number of hundredths.
#[verifier::opaque]
pub open spec fn leg_for(
    cs: Seq<StrikeCandidate>,
    leg: LegView,
    side: OrderSide,
    hundredths: int,
    call: bool,
    quantity: int,
    target_dte: u32,
) -> bool {
    exists|i: int| #[trigger]
        pick_of(cs, i, hundredths, call, target_dte) && made_of(leg, cs[i], side, quantity)
}

/// Whether a chain has an option with a delta near a number of hundredths.
#[verifier::opaque]
pub open spec fn findable(
    cs: Seq<StrikeCandidate>,
    hundredths: int,
    call: bool,
    target_dte: u32,
) -> bool {
    can_pick(cs, Double::percent(hundredths), call, target_dte, 7)
}

proof fn lemma_leg_for(
    cs: Seq<StrikeCandidate>,
    rules: Seq<LegRule>,
    contracts: u32,
    target_dte: u32,
    k: int,
)
    requires
        0 <= k < rules.len(),
        leg_choice(cs, rules[k], target_dte) is Some,
        0 <= rules[k].ratio <= 2,
    ensures
        leg_for(
            cs,
            legs_of(cs, rules, contracts, target_dte)[k],
            if rules[k].buy {
                OrderSide::Buy
            } else {
                OrderSide::Sell
            },
            rules[k].delta as int,
            rules[k].call,
            contracts * rules[k].ratio,
            target_dte,
        ),
{
    let rule: LegRule = rules[k];
    let target: Double = Double::percent(rule.delta as int);
    law_the_nearest_delta_is_chosen(cs, target, rule.call, target_dte, 7);
    let i: int = leg_choice(cs, rule, target_dte)->0;
    assert(DTE_TOLERANCE == 7);
    reveal(pick_of);
    reveal(leg_for);
    assert(pick_of(cs, i, rule.delta as int, rule.call, target_dte));
    assert(contracts * rule.ratio <= u64::MAX) by (nonlinear_arith)
        requires
            contracts <= u32::MAX,
            rule.ratio <= 2,
    ;
    assert(made_of(
        legs_of(cs, rules, contracts, target_dte)[k],
        cs[i],
        if rule.buy {
            OrderSide::Buy
        } else {
            OrderSide::Sell
        },
        contracts * rule.ratio,
    ));
}

proof fn lemma_trade(
    strategy: StrategyType,
    cs: Seq<StrikeCandidate>,
    contracts: u32,
    target_dte: u32,
)
    requires
        trade_legs(strategy.label(), cs, contracts, target_dte) is Ok,
    ensures
        leg_rules(strategy).len() > 0,
        all_found(cs, leg_rules(strategy), target_dte),
        trade_legs(strategy.label(), cs, contracts, target_dte)->Ok_0 == legs_of(
            cs,
            leg_rules(strategy),
            contracts,
            target_dte,
        ),
{
    law_names_are_distinct(strategy, strategy);
    assert(trade_fault(strategy.label(), cs, target_dte) is None);
}

proof fn lemma_four_legs(
    s: StrategyType,
    cs: Seq<StrikeCandidate>,
    contracts: u32,
    target_dte: u32,
    k: int,
)
    requires
        leg_rules(s).len() == 4,
        0 <= k < 4,
        leg_rules(s)[k].ratio == 1,
    ensures
        trade_legs(s.label(), cs, contracts, target_dte) matches Ok(legs) ==> legs.len() == 4
            && leg_for(
            cs,
            legs[k],
            side_of_rule(leg_rules(s)[k]),
            leg_rules(s)[k].delta as int,
            leg_rules(s)[k].call,
            contracts as int,
            target_dte,
        ),
{
    if trade_legs(s.label(), cs, contracts, target_dte) is Ok {
        lemma_trade(s, cs, contracts, target_dte);
        let rules: Seq<LegRule> = leg_rules(s);
        assert(leg_choice(cs, rules[k], target_dte) is Some);
        assert(contracts * 1 == contracts);
        lemma_leg_for(cs, rules, contracts, target_dte, k);
    }
}

/// An iron condor sells the call and the put with deltas nearest to 0.16 and -0.16, and buys those
/// nearest to 0.05 and -0.05.
pub proof fn law_iron_condors(cs: Seq<StrikeCandidate>, contracts: u32, target_dte: u32)
    ensures
        trade_legs("IronCondor"@, cs, contracts, target_dte) matches Ok(legs) ==> {
            &&& legs.len() == 4
            &&& leg_for(cs, legs[0], OrderSide::Sell, 16, true, contracts as int, target_dte)
            &&& leg_for(cs, legs[1], OrderSide::Buy, 5, true, contracts as int, target_dte)
            &&& leg_for(cs, legs[2], OrderSide::Sell, -16, false, contracts as int, target_dte)
            &&& leg_for(cs, legs[3], OrderSide::Buy, -5, false, contracts as int, target_dte)
        },
{
    let s: StrategyType = StrategyType::IronCondor;
    lemma_four_legs(s, cs, contracts, target_dte, 0);
    lemma_four_legs(s, cs, contracts, target_dte, 1);
    lemma_four_legs(s, cs, contracts, target_dte, 2);
    lemma_four_legs(s, cs, contracts, target_dte, 3);
}

/// An iron butterfly sells the call and the put with deltas nearest to 0.50 and -0.50, and buys
/// those nearest to 0.10 and -0.10.
pub proof fn law_iron_butterflies(cs: Seq<StrikeCandidate>, contracts: u32, target_dte: u32)
    ensures
        trade_legs("IronButterfly"@, cs, contracts, target_dte) matches Ok(legs) ==> {
            &&& legs.len() == 4
            &&& leg_for(cs, legs[0], OrderSide::Sell, 50, true, contracts as int, target_dte)
            &&& leg_for(cs, legs[1], OrderSide::Sell, -50, false, contracts as int, target_dte)
            &&& leg_for(cs, legs[2], OrderSide::Buy, 10, true, contracts as int, target_dte)
            &&& leg_for(cs, legs[3], OrderSide::Buy, -10, false, contracts as int, target_dte)
        },
{
    let s: StrategyType = StrategyType::IronButterfly;
    lemma_four_legs(s, cs, contracts, target_dte, 0);
    lemma_four_legs(s, cs, contracts, target_dte, 1);
    lemma_four_legs(s, cs, contracts, target_dte, 2);
    lemma_four_legs(s, cs, contracts, target_dte, 3);
}

/// Whether an order has two legs, made of the options with the deltas nearest to two numbers of
/// hundredths.
pub open spec fn two_legs(
    legs: Seq<LegView>,
    cs: Seq<StrikeCandidate>,
    target_dte: u32,
    first: (OrderSide, int, bool, int),
    second: (OrderSide, int, bool, int),
) -> bool {
    &&& legs.len() == 2
    &&& leg_for(cs, legs[0], first.0, first.1, first.2, first.3, target_dte)
    &&& leg_for(cs, legs[1], second.0, second.1, second.2, second.3, target_dte)
}

/// What the strategies of two legs are made of:
/// - a strangle sells the call and the put with deltas nearest to 0.20 and -0.20;
/// - a long straddle buys those nearest to 0.50 and -0.50;
/// - a long strangle buys those nearest to 0.30 and -0.30;
/// - a backspread sells the call nearest to 0.50 and buys twice as many of the call nearest to 0.25;
/// - a risk reversal buys the call nearest to 0.25 and sells the put nearest to -0.25.
pub proof fn law_strategies_of_two_legs(
    cs: Seq<StrikeCandidate>,
    contracts: u32,
    target_dte: u32,
)
    ensures
        ({
            let n = contracts as int;
            &&& trade_legs("Strangle"@, cs, contracts, target_dte) matches Ok(legs) ==> two_legs(
                legs,
                cs,
                target_dte,
                (OrderSide::Sell, 20, true, n),
                (OrderSide::Sell, -20, false, n),
            )
            &&& trade_legs("LongStraddle"@, cs, contracts, target_dte) matches Ok(legs) ==> two_legs(
                legs,
                cs,
                target_dte,
                (OrderSide::Buy, 50, true, n),
                (OrderSide::Buy, -50, false, n),
            )
            &&& trade_legs("LongStrangle"@, cs, contracts, target_dte) matches Ok(legs) ==> two_legs(
                legs,
                cs,
                target_dte,
                (OrderSide::Buy, 30, true, n),
                (OrderSide::Buy, -30, false, n),
            )
            &&& trade_legs("Backspread"@, cs, contracts, target_dte) matches Ok(legs) ==> two_legs(
                legs,
                cs,
                target_dte,
                (OrderSide::Sell, 50, true, n),
                (OrderSide::Buy, 25, true, 2 * n),
            )
            &&& trade_legs("RiskReversal"@, cs, contracts, target_dte) matches Ok(legs) ==> two_legs(
                legs,
                cs,
                target_dte,
                (OrderSide::Buy, 25, true, n),
                (OrderSide::Sell, -25, false, n),
            )
        }),
{
    lemma_two_legs(StrategyType::Strangle, cs, contracts, target_dte);
    lemma_two_legs(StrategyType::LongStraddle, cs, contracts, target_dte);
    lemma_two_legs(StrategyType::LongStrangle, cs, contracts, target_dte);
    lemma_two_legs(StrategyType::Backspread, cs, contracts, target_dte);
    lemma_two_legs(StrategyType::RiskReversal, cs, contracts, target_dte);
}

spec fn side_of_rule(rule: LegRule) -> OrderSide {
    if rule.buy {
        OrderSide::Buy
    } else {
        OrderSide::Sell
    }
}

proof fn lemma_two_legs(
    s: StrategyType,
    cs: Seq<StrikeCandidate>,
    contracts: u32,
    target_dte: u32,
)
    requires
        leg_rules(s).len() == 2,
        leg_rules(s)[0].ratio == 1,
        leg_rules(s)[1].ratio == 1 || leg_rules(s)[1].ratio == 2,
    ensures
        trade_legs(s.label(), cs, contracts, target_dte) matches Ok(legs) ==> two_legs(
            legs,
            cs,
            target_dte,
            (
                side_of_rule(leg_rules(s)[0]),
                leg_rules(s)[0].delta as int,
                leg_rules(s)[0].call,
                contracts as int,
            ),
            (
                side_of_rule(leg_rules(s)[1]),
                leg_rules(s)[1].delta as int,
                leg_rules(s)[1].call,
                leg_rules(s)[1].ratio * contracts,
            ),
        ),
{
    if trade_legs(s.label(), cs, contracts, target_dte) is Ok {
        lemma_trade(s, cs, contracts, target_dte);
        let rules: Seq<LegRule> = leg_rules(s);
        assert(leg_choice(cs, rules[0], target_dte) is Some);
        assert(leg_choice(cs, rules[1], target_dte) is Some);
        let r: int = rules[1].ratio as int;
        assert(contracts * 1 == contracts && contracts * r == r * contracts) by (nonlinear_arith);
        lemma_leg_for(cs, rules, contracts, target_dte, 0);
        lemma_leg_for(cs, rules, contracts, target_dte, 1);
    }
}

// ── Whether an order can be built ───────────────────────────────────────────

proof fn lemma_found(cs: Seq<StrikeCandidate>, rule: LegRule, target_dte: u32)
    ensures
        findable(cs, rule.delta as int, rule.call, target_dte) ==> leg_choice(cs, rule, target_dte)
            is Some,
{
    reveal(findable);
    law_the_nearest_delta_is_chosen(
        cs,
        Double::percent(rule.delta as int),
        rule.call,
        target_dte,
        7,
    );
}

proof fn lemma_built(s: StrategyType, cs: Seq<StrikeCandidate>, contracts: u32, target_dte: u32)
    requires
        leg_rules(s).len() > 0,
        !(s is IronCondor),
        !(s is DeltaHedge),
        !(s is DoNothing),
        forall|k: int|
            0 <= k < leg_rules(s).len() ==> findable(
                cs,
                (#[trigger] leg_rules(s)[k]).delta as int,
                leg_rules(s)[k].call,
                target_dte,
            ),
    ensures
        trade_legs(s.label(), cs, contracts, target_dte) is Ok,
{
    law_names_are_distinct(s, s);
    let rules: Seq<LegRule> = leg_rules(s);
    assert forall|k: int| 0 <= k < rules.len() implies leg_choice(
        cs,
        #[trigger] rules[k],
        target_dte,
    ) is Some by {
        lemma_found(cs, rules[k], target_dte);
    }
    assert(all_found(cs, rules, target_dte));
    assert(trade_fault(s.label(), cs, target_dte) is None);
}

/// An order is built wherever the chain has an option for every leg.
#[verifier::rlimit(40)]
pub proof fn law_orders_are_built_where_options_are_found(
    cs: Seq<StrikeCandidate>,
    contracts: u32,
    target_dte: u32,
)
    ensures
        findable(cs, 20, true, target_dte) && findable(cs, -20, false, target_dte) ==> trade_legs(
            "Strangle"@,
            cs,
            contracts,
            target_dte,
        ) is Ok,
        findable(cs, 50, true, target_dte) && findable(cs, -50, false, target_dte) ==> trade_legs(
            "LongStraddle"@,
            cs,
            contracts,
            target_dte,
        ) is Ok,
        findable(cs, 30, true, target_dte) && findable(cs, -30, false, target_dte) ==> trade_legs(
            "LongStrangle"@,
            cs,
            contracts,
            target_dte,
        ) is Ok,
        findable(cs, 50, true, target_dte) && findable(cs, 25, true, target_dte) ==> trade_legs(
            "Backspread"@,
            cs,
            contracts,
            target_dte,
        ) is Ok,
        findable(cs, 25, true, target_dte) && findable(cs, -25, false, target_dte) ==> trade_legs(
            "RiskReversal"@,
            cs,
            contracts,
            target_dte,
        ) is Ok,
        findable(cs, 50, true, target_dte) && findable(cs, -50, false, target_dte) && findable(
            cs,
            10,
            true,
            target_dte,
        ) && findable(cs, -10, false, target_dte) ==> trade_legs(
            "IronButterfly"@,
            cs,
            contracts,
            target_dte,
        ) is Ok,
{
    if findable(cs, 20, true, target_dte) && findable(cs, -20, false, target_dte) {
        lemma_built(StrategyType::Strangle, cs, contracts, target_dte);
    }
    if findable(cs, 50, true, target_dte) && findable(cs, -50, false, target_dte) {
        lemma_built(StrategyType::LongStraddle, cs, contracts, target_dte);
        if findable(cs, 10, true, target_dte) && findable(cs, -10, false, target_dte) {
            lemma_built(StrategyType::IronButterfly, cs, contracts, target_dte);
        }
    }
    if findable(cs, 30, true, target_dte) && findable(cs, -30, false, target_dte) {
        lemma_built(StrategyType::LongStrangle, cs, contracts, target_dte);
    }
    if findable(cs, 50, true, target_dte) && findable(cs, 25, true, target_dte) {
        lemma_built(StrategyType::Backspread, cs, contracts, target_dte);
    }
    if findable(cs, 25, true, target_dte) && findable(cs, -25, false, target_dte) {
        lemma_built(StrategyType::RiskReversal, cs, contracts, target_dte);
    }
}

proof fn lemma_picked(cs: Seq<StrikeCandidate>, rule: LegRule, target_dte: u32, i: int)
    requires
        pick_of(cs, i, rule.delta as int, rule.call, target_dte),
    ensures
        leg_choice(cs, rule, target_dte) == Some(i),
{
    reveal(pick_of);
    law_the_nearest_delta_is_chosen(
        cs,
        Double::percent(rule.delta as int),
        rule.call,
        target_dte,
        7,
    );
}

/// An iron condor is built if and only if its options stand in order, given the options of its
/// legs: the bought call not below the sold one, and the bought put not above the sold one.
/// Otherwise the strikes are reported.
pub proof fn law_condors_are_built_in_order(
    cs: Seq<StrikeCandidate>,
    contracts: u32,
    target_dte: u32,
    sc: int,
    lc: int,
    sp: int,
    lp: int,
)
    requires
        pick_of(cs, sc, 16, true, target_dte),
        pick_of(cs, lc, 5, true, target_dte),
        pick_of(cs, sp, -16, false, target_dte),
        pick_of(cs, lp, -5, false, target_dte),
    ensures
        if cs[sc].strike.at_most(cs[lc].strike) && cs[lp].strike.at_most(cs[sp].strike) {
            trade_legs("IronCondor"@, cs, contracts, target_dte) is Ok
        } else {
            trade_legs("IronCondor"@, cs, contracts, target_dte) == Err::<
                Seq<LegView>,
                BuildFault,
            >(
                BuildFault::StrikeOrder {
                    lc: cs[lc].strike,
                    sc: cs[sc].strike,
                    sp: cs[sp].strike,
                    lp: cs[lp].strike,
                },
            )
        },
{
    let s: StrategyType = StrategyType::IronCondor;
    law_names_are_distinct(s, s);
    let rules: Seq<LegRule> = leg_rules(s);
    lemma_picked(cs, rules[0], target_dte, sc);
    lemma_picked(cs, rules[1], target_dte, lc);
    lemma_picked(cs, rules[2], target_dte, sp);
    lemma_picked(cs, rules[3], target_dte, lp);
    assert(rules.len() == 4);
    assert(leg_choice(cs, rules[0], target_dte) == Some(sc));
    assert(leg_choice(cs, rules[1], target_dte) == Some(lc));
    assert(leg_choice(cs, rules[2], target_dte) == Some(sp));
    assert(leg_choice(cs, rules[3], target_dte) == Some(lp));
    assert(all_found(cs, rules, target_dte));
    assert(leg_option(cs, rules, target_dte, 0) == cs[sc]);
    assert(leg_option(cs, rules, target_dte, 1) == cs[lc]);
    assert(leg_option(cs, rules, target_dte, 2) == cs[sp]);
    assert(leg_option(cs, rules, target_dte, 3) == cs[lp]);
    assert(condor_in_order(cs, rules, target_dte) == (cs[sc].strike.at_most(cs[lc].strike)
        && cs[lp].strike.at_most(cs[sp].strike)));
}

/// Whether a name is that of a strategy that is made of options.
pub open spec fn option_strategy(name: Seq<char>) -> bool {
    name == "IronCondor"@ || name == "Strangle"@ || name == "IronButterfly"@ || name
        == "LongStraddle"@ || name == "LongStrangle"@ || name == "Backspread"@ || name
        == "RiskReversal"@
}

/// No order is built for any other name: hedges of delta and doing nothing are refused as what
/// they are, and all else as unknown.
pub proof fn law_other_names_build_nothing(
    name: Seq<char>,
    cs: Seq<StrikeCandidate>,
    contracts: u32,
    target_dte: u32,
)
    requires
        !option_strategy(name),
    ensures
        trade_legs(name, cs, contracts, target_dte) == Err::<Seq<LegView>, BuildFault>(
            if name == "DeltaHedge"@ {
                BuildFault::NotAnOptionTrade
            } else if name == "DoNothing"@ {
                BuildFault::NothingToDo
            } else {
                BuildFault::UnknownStrategy(name)
            },
        ),
{
    law_names_are_distinct(StrategyType::DeltaHedge, StrategyType::DoNothing);
    law_names_are_distinct(StrategyType::DoNothing, StrategyType::DeltaHedge);
    if strategy_named(name) is Some {
        let s: StrategyType = strategy_named(name)->0;
        assert(s.label() == name);
    }
}

/// Where the chain has no call that may be traded, or no put where the strategy needs one, the
/// missing strikes are reported.
pub proof fn law_missing_options_are_reported(
    s: StrategyType,
    cs: Seq<StrikeCandidate>,
    contracts: u32,
    target_dte: u32,
    call: bool,
)
    requires
        option_strategy(s.label()),
        call || !(s is Backspread),
        forall|i: int| 0 <= i < cs.len() ==> !may_trade(#[trigger] cs[i], call, target_dte, 7),
    ensures
        trade_legs(s.label(), cs, contracts, target_dte) == Err::<Seq<LegView>, BuildFault>(
            BuildFault::MissingStrikes { strategy: s, target_dte },
        ),
{
    law_names_are_distinct(s, StrategyType::FuturesCalendar);
    law_names_are_distinct(s, StrategyType::FuturesLong);
    law_names_are_distinct(s, StrategyType::FuturesShort);
    law_names_are_distinct(s, StrategyType::DeltaHedge);
    law_names_are_distinct(s, StrategyType::DoNothing);
    lemma_option_strategy(s);
    let rules: Seq<LegRule> = leg_rules(s);
    let k: int = lemma_rule_of_right(s, call);
    law_the_nearest_delta_is_chosen(
        cs,
        Double::percent(rules[k].delta as int),
        call,
        target_dte,
        7,
    );
    assert(leg_choice(cs, rules[k], target_dte) is None);
    assert(!all_found(cs, rules, target_dte));
}

proof fn lemma_option_strategy(s: StrategyType)
    requires
        option_strategy(s.label()),
    ensures
        leg_rules(s).len() > 0,
        !(s is DeltaHedge),
        !(s is DoNothing),
{
    law_names_are_distinct(s, StrategyType::IronCondor);
    law_names_are_distinct(s, StrategyType::Strangle);
    law_names_are_distinct(s, StrategyType::IronButterfly);
    law_names_are_distinct(s, StrategyType::LongStraddle);
    law_names_are_distinct(s, StrategyType::LongStrangle);
    law_names_are_distinct(s, StrategyType::Backspread);
    law_names_are_distinct(s, StrategyType::RiskReversal);
}

proof fn lemma_rule_of_right(s: StrategyType, call: bool) -> (k: int)
    requires
        leg_rules(s).len() > 0,
        call || !(s is Backspread),
    ensures
        0 <= k < leg_rules(s).len(),
        leg_rules(s)[k].call == call,
{
    if call {
        0
    } else if s is IronCondor {
        2
    } else {
        1
    }
}

} // verus!
