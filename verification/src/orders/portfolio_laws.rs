//! What positions add up to, and how they are kept up to date.

use super::{
    after_equity_event, contribution, hedge, option_key, total_greeks, GreeksContribution,
    PositionView,
};
use crate::data::{MarketEvent, OptionRight};
use crate::num::double::{lemma_whole_zero, Double};
use crate::num::format::fixed;
use crate::num::laws::{
    distance, is_whole, law_whole_numbers_are_exact, lemma_product_of_opposite, lemma_whole_absolute,
    lemma_whole_is_unique, lemma_whole_is_whole, lemma_whole_opposite, lemma_whole_order,
    lemma_whole_product, lemma_whole_sum, EXACT,
};
use crate::num::rounding::{law_every_quotient_rounds, nearest};
use vstd::arithmetic::power2::lemma_pow2_pos;
use vstd::prelude::*;

verus! {

/// The Greeks by number: delta, gamma, theta, vega, vanna, charm.
pub open spec fn greek_of(p: PositionView, k: int) -> Double {
    if k == 0 {
        p.delta
    } else if k == 1 {
        p.gamma
    } else if k == 2 {
        p.theta
    } else if k == 3 {
        p.vega
    } else if k == 4 {
        p.vanna
    } else {
        p.charm
    }
}

/// The parts of a contribution by number, as the Greeks are numbered.
pub open spec fn part(c: GreeksContribution, k: int) -> Double {
    if k == 0 {
        c.delta
    } else if k == 1 {
        c.gamma
    } else if k == 2 {
        c.theta
    } else if k == 3 {
        c.vega
    } else if k == 4 {
        c.vanna
    } else {
        c.charm
    }
}

/// A position of the opposite quantity.
pub open spec fn reversed(p: PositionView) -> PositionView {
    PositionView { quantity: (-p.quantity) as i64, ..p }
}

/// The opposite of a whole number that is not zero is the number of the opposite value.
proof fn lemma_opposite_whole(n: int)
    requires
        n != 0,
    ensures
        Double::whole(-n) == Double::whole(n).opposite(),
{
    lemma_pow2_pos(1074);
    let a: int = distance(n) * crate::num::double::one();
    assert(a >= 0) by (nonlinear_arith)
        requires
            a == distance(n) * crate::num::double::one(),
            distance(n) >= 0,
            crate::num::double::one() > 0,
    ;
    law_every_quotient_rounds(a, 1);
    let k: int = nearest(a, 1);
    assert(Double::whole(n) == Double::of(n < 0, k));
    assert(Double::whole(-n) == Double::of(n > 0, k));
    assert(Double::of(true, k).rank() == k && Double::of(true, k).negative());
    assert(Double::of(false, k).rank() == k && !Double::of(false, k).negative());
}

/// A short position counts against what an equal long one counts for: every Greek of the
/// contribution has the same magnitude and the opposite sign.
pub proof fn law_short_positions_count_the_other_way(p: PositionView, k: int)
    requires
        0 <= k < 6,
        p.quantity != 0,
        p.quantity > i64::MIN,
    ensures
        ({
            let long = part(contribution(p), k);
            let short = part(contribution(reversed(p)), k);
            if long.nan() {
                short.nan()
            } else {
                short == long.opposite() && short.rank() == long.rank() && short.negative()
                    != long.negative()
            }
        }),
{
    let n: int = p.quantity as int;
    lemma_opposite_whole(n);
    lemma_product_of_opposite(Double::whole(n), greek_of(p, k));
    let long: Double = part(contribution(p), k);
    assert(long == Double::whole(n).product(greek_of(p, k)));
    assert(long.opposite().rank() == long.rank() && long.opposite().negative() != long.negative());
}

/// What a position adds to a Greek of the portfolio is its signed quantity times that Greek,
/// whatever the numbers are; for whole numbers it is the exact product.
pub proof fn law_positions_count_by_quantity(p: PositionView, k: int, value: int)
    requires
        0 <= k < 6,
    ensures
        part(contribution(p), k) == Double::whole(p.quantity as int).product(greek_of(p, k)),
        is_whole(greek_of(p, k), value) && -EXACT <= p.quantity <= EXACT && -EXACT <= p.quantity
            * value <= EXACT ==> is_whole(part(contribution(p), k), p.quantity * value),
{
    if is_whole(greek_of(p, k), value) && -EXACT <= p.quantity <= EXACT && -EXACT <= p.quantity
        * value <= EXACT {
        lemma_whole_is_whole(p.quantity as int);
        lemma_whole_product(
            Double::whole(p.quantity as int),
            greek_of(p, k),
            p.quantity as int,
            value,
        );
    }
}

/// No positions have no Greeks, and one more position adds its signed quantity times each of its
/// Greeks, whatever the numbers are.
pub proof fn law_one_more_position_is_added(ps: Seq<PositionView>, p: PositionView, k: int)
    requires
        0 <= k < 6,
    ensures
        part(total_greeks(Seq::empty()), k) == Double::of(false, 0),
        part(total_greeks(ps.push(p)), k) == part(total_greeks(ps), k).sum(
            Double::whole(p.quantity as int).product(greek_of(p, k)),
        ),
{
    assert(ps.push(p).drop_last() =~= ps);
}

/// The sum of quantity times value.
pub open spec fn exposure(ps: Seq<PositionView>, values: Seq<int>) -> int
    decreases ps.len(),
{
    if ps.len() == 0 {
        0
    } else {
        exposure(ps.drop_last(), values) + ps.last().quantity * values[ps.len() - 1]
    }
}

/// The sum of quantity times value, whatever the signs are.
pub open spec fn gross(ps: Seq<PositionView>, values: Seq<int>) -> int
    decreases ps.len(),
{
    if ps.len() == 0 {
        0
    } else {
        gross(ps.drop_last(), values) + distance(ps.last().quantity * values[ps.len() - 1])
    }
}

/// Whether the `k`-th Greeks of positions are whole numbers that are small enough to be exact.
pub open spec fn whole_greeks(ps: Seq<PositionView>, values: Seq<int>, k: int) -> bool {
    &&& values.len() == ps.len()
    &&& forall|i: int|
        0 <= i < ps.len() ==> is_whole(greek_of(#[trigger] ps[i], k), values[i]) && -EXACT
            <= ps[i].quantity <= EXACT
    &&& gross(ps, values) <= EXACT
}

proof fn lemma_exposure(ps: Seq<PositionView>, values: Seq<int>, fewer: Seq<int>)
    requires
        ps.len() <= fewer.len() <= values.len(),
        forall|i: int| 0 <= i < fewer.len() ==> fewer[i] == values[i],
    ensures
        exposure(ps, values) == exposure(ps, fewer),
        gross(ps, values) == gross(ps, fewer),
        distance(exposure(ps, values)) <= gross(ps, values),
    decreases ps.len(),
{
    if ps.len() > 0 {
        lemma_exposure(ps.drop_last(), values, fewer);
    }
}

/// Each Greek of the portfolio is the sum over all positions of signed quantity times that Greek,
/// exactly so for whole numbers: what is short is taken away from what is long.
pub proof fn law_portfolio_greeks_add_up(ps: Seq<PositionView>, values: Seq<int>, k: int)
    requires
        0 <= k < 6,
        whole_greeks(ps, values, k),
    ensures
        part(total_greeks(ps), k) == Double::whole(exposure(ps, values)),
    decreases ps.len(),
{
    lemma_whole_zero();
    lemma_exposure(ps, values, values);
    if ps.len() > 0 {
        let front: Seq<PositionView> = ps.drop_last();
        let fewer: Seq<int> = values.drop_last();
        lemma_exposure(front, values, fewer);
        assert forall|i: int| 0 <= i < front.len() implies is_whole(
            greek_of(#[trigger] front[i], k),
            fewer[i],
        ) && -EXACT <= front[i].quantity <= EXACT by {
            assert(is_whole(greek_of(ps[i], k), values[i]));
        }
        law_portfolio_greeks_add_up(front, fewer, k);
        let p: PositionView = ps.last();
        assert(is_whole(greek_of(ps[ps.len() - 1], k), values[ps.len() - 1]));
        let v: int = values[ps.len() - 1];
        law_positions_count_by_quantity(p, k, v);
        assert(front.push(p) =~= ps);
        law_one_more_position_is_added(front, p, k);
        let t: int = exposure(front, fewer);
        let d: int = p.quantity * v;
        let before: Double = Double::whole(t);
        let more: Double = part(contribution(p), k);
        lemma_whole_is_whole(t);
        law_whole_numbers_are_exact(t);
        lemma_whole_sum(before, more, t, d);
        if t + d != 0 {
            lemma_whole_is_unique(before.sum(more), t + d);
        } else if t < 0 {
            lemma_whole_order(Double::of(false, 0), more, 0, d);
        }
    }
}

/// A long position and an equal short one cancel out.
pub proof fn law_equal_long_and_short_cancel(
    ps: Seq<PositionView>,
    values: Seq<int>,
    p: PositionView,
    value: int,
    k: int,
)
    requires
        0 <= k < 6,
        p.quantity > i64::MIN,
        whole_greeks(ps.push(p).push(reversed(p)), values.push(value).push(value), k),
        values.len() == ps.len(),
    ensures
        part(total_greeks(ps.push(p).push(reversed(p))), k) == part(total_greeks(ps), k),
{
    let one: Seq<PositionView> = ps.push(p);
    let both: Seq<PositionView> = one.push(reversed(p));
    let vs: Seq<int> = values.push(value).push(value);
    law_portfolio_greeks_add_up(both, vs, k);
    assert(both.drop_last() =~= one);
    assert(one.drop_last() =~= ps);
    lemma_exposure(ps, vs, values);
    lemma_exposure(one, vs, vs);
    assert forall|i: int| 0 <= i < ps.len() implies is_whole(
        greek_of(#[trigger] ps[i], k),
        values[i],
    ) && -EXACT <= ps[i].quantity <= EXACT by {
        assert(both[i] == ps[i]);
        assert(vs[i] == values[i]);
    }
    law_portfolio_greeks_add_up(ps, values, k);
    assert((-p.quantity) * value == -(p.quantity * value)) by (nonlinear_arith);
}

// ── Hedges ──────────────────────────────────────────────────────────────────

/// Whole deltas are hedged if and only if they are off the target by more than the tolerance, and
/// then by exactly what is missing to the target: bought if the delta is too low, sold if it is
/// too high.
pub proof fn law_hedges_make_up_the_difference(delta: int, target: int, tolerance: int)
    requires
        -0x10_0000_0000_0000 <= delta <= 0x10_0000_0000_0000,
        -0x10_0000_0000_0000 <= target <= 0x10_0000_0000_0000,
        0 <= tolerance <= EXACT,
    ensures
        ({
            let r = hedge(Double::whole(delta), Double::whole(target), Double::whole(tolerance));
            if distance(delta - target) > tolerance {
                r == Some(Double::whole(target - delta))
            } else {
                r is None
            }
        }),
{
    lemma_whole_is_whole(delta);
    lemma_whole_is_whole(target);
    lemma_whole_is_whole(tolerance);
    lemma_whole_opposite(Double::whole(target), target);
    let error: Double = Double::whole(delta).difference(Double::whole(target));
    lemma_whole_sum(Double::whole(delta), Double::whole(target).opposite(), delta, -target);
    lemma_whole_absolute(error, delta - target);
    lemma_whole_order(
        Double::whole(tolerance),
        error.absolute(),
        tolerance,
        distance(delta - target),
    );
    lemma_whole_opposite(error, delta - target);
    if delta != target {
        lemma_whole_is_unique(error.opposite(), target - delta);
    }
}

/// A hedge is the opposite of what the delta exceeds its target by, and there is one if and only
/// if that is more than the tolerance, whatever the numbers are.
pub proof fn law_hedges_oppose_the_error(delta: Double, target: Double, tolerance: Double)
    ensures
        ({
            let error = delta.sum(target.opposite());
            match hedge(delta, target, tolerance) {
                Some(q) => tolerance.below(error.absolute()) && q.rank() == error.rank()
                    && q.negative() == !error.negative(),
                None => !tolerance.below(error.absolute()),
            }
        }),
{
    let error: Double = delta.sum(target.opposite());
    assert(error.opposite().rank() == error.rank() && error.opposite().negative()
        == !error.negative());
}

// ── Quotes ──────────────────────────────────────────────────────────────────

/// A quote gives its six Greeks to the position that is held under the root, the expiration, the
/// strike in whole dollars and the right of the option; what else the position says, and every
/// other position, stays as it was. Other events change no position.
pub proof fn law_quotes_renew_one_position(
    positions: Map<Seq<char>, PositionView>,
    event: MarketEvent,
    key: Seq<char>,
)
    ensures
        ({
            let after = after_equity_event(positions, event);
            &&& after.contains_key(key) <==> positions.contains_key(key)
            &&& positions.contains_key(key) ==> match event {
                MarketEvent::OptionQuote(q) => if key == q.root@ + seq!['_'] + q.expiration@
                    + seq!['_'] + fixed(q.strike, 0) + seq!['_'] + (if q.right == OptionRight::Call {
                    "Call"@
                } else {
                    "Put"@
                }) {
                    &&& after[key].delta == q.delta
                    &&& after[key].gamma == q.gamma
                    &&& after[key].theta == q.theta
                    &&& after[key].vega == q.vega
                    &&& after[key].vanna == q.vanna
                    &&& after[key].charm == q.charm
                    &&& after[key].symbol == positions[key].symbol
                    &&& after[key].quantity == positions[key].quantity
                    &&& after[key].avg_cost == positions[key].avg_cost
                    &&& after[key].instrument == positions[key].instrument
                } else {
                    after[key] == positions[key]
                },
                _ => after[key] == positions[key],
            }
        }),
{
}

/// Options of one root and expiration that have another strike, in whole dollars, or another
/// right are held under another key.
pub proof fn law_options_are_held_apart(
    root: Seq<char>,
    expiration: Seq<char>,
    a: Double,
    b: Double,
    call: OptionRight,
    other: OptionRight,
)
    requires
        option_key(root, expiration, a, call) == option_key(root, expiration, b, other),
    ensures
        call == other,
        fixed(a, 0) == fixed(b, 0),
{
    reveal_strlit("Call");
    reveal_strlit("Put");
    let x: Seq<char> = option_key(root, expiration, a, call);
    let y: Seq<char> = option_key(root, expiration, b, other);
    assert(x.last() == y.last());
    assert(call == other);
    let front: int = (root.len() + expiration.len() + 2) as int;
    let tail: int = 1 + (if call == OptionRight::Call {
        4int
    } else {
        3
    });
    assert(x.subrange(front, x.len() - tail) =~= fixed(a, 0));
    assert(y.subrange(front, y.len() - tail) =~= fixed(b, 0));
}

} // verus!
