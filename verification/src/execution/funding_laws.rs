//! What an order costs, reckoned in whole numbers.

use super::funding::{capital, leg_cost, multiplier_of, net_cost, total_cost, trades_futures};
use crate::num::double::{lemma_whole_zero, Double};
use crate::num::laws::{
    is_whole, lemma_whole_absolute, lemma_whole_is_unique, lemma_whole_is_whole, lemma_whole_opposite,
    lemma_whole_order, lemma_whole_product, lemma_whole_sum, EXACT,
};
use crate::orders::{Instrument, LegView, OrderSide};
use vstd::prelude::*;

verus! {

/// Whether a leg has a limit price of `p` dollars, or none where `p` is zero.
pub open spec fn priced_at(leg: LegView, p: int) -> bool {
    match leg.limit_price {
        Some(x) => x == Double::whole(p),
        None => p == 0,
    }
}

pub open spec fn size_of(n: int) -> int {
    if n < 0 {
        -n
    } else {
        n
    }
}

/// Price times quantity of all legs, positive for what is bought and negative for what is sold.
pub open spec fn paid(legs: Seq<LegView>, prices: Seq<int>) -> int
    decreases legs.len(),
{
    if legs.len() == 0 {
        0
    } else {
        paid(legs.drop_last(), prices) + match legs.last().side {
            OrderSide::Buy => prices[legs.len() - 1] * legs.last().quantity,
            OrderSide::Sell => -(prices[legs.len() - 1] * legs.last().quantity),
        }
    }
}

/// Price times quantity of all legs, whatever their side.
pub open spec fn turnover(legs: Seq<LegView>, prices: Seq<int>) -> int
    decreases legs.len(),
{
    if legs.len() == 0 {
        0
    } else {
        turnover(legs.drop_last(), prices) + size_of(prices[legs.len() - 1] * legs.last().quantity)
    }
}

/// Whether some leg is a future or an option on one.
pub open spec fn has_future(legs: Seq<LegView>) -> bool {
    exists|i: int|
        0 <= i < legs.len() && ((#[trigger] legs[i]).instrument == Instrument::Future
            || legs[i].instrument == Instrument::FutureOption)
}

/// Whether all legs are priced in whole dollars, in numbers that are small enough to be exact.
pub open spec fn priced_in_dollars(legs: Seq<LegView>, prices: Seq<int>) -> bool {
    &&& prices.len() == legs.len()
    &&& forall|i: int|
        0 <= i < legs.len() ==> priced_at(#[trigger] legs[i], prices[i]) && legs[i].quantity
            <= EXACT && -EXACT <= prices[i] <= EXACT
    &&& 200 * turnover(legs, prices) <= EXACT
}

/// An order is a futures order if and only if some leg is a future or an option on one.
pub proof fn law_futures_orders_have_a_future(legs: Seq<LegView>)
    ensures
        trades_futures(legs) <==> has_future(legs),
{
    if trades_futures(legs) {
        let i: int = choose|i: int|
            0 <= i < legs.len() && (#[trigger] legs[i]).instrument.futures();
        assert(legs[i].instrument.futures());
    }
    if has_future(legs) {
        let i: int = choose|i: int|
            0 <= i < legs.len() && ((#[trigger] legs[i]).instrument == Instrument::Future
                || legs[i].instrument == Instrument::FutureOption);
        assert(legs[i].instrument.futures());
    }
}

proof fn lemma_paid_bounds(legs: Seq<LegView>, prices: Seq<int>)
    ensures
        0 <= size_of(paid(legs, prices)) <= turnover(legs, prices),
    decreases legs.len(),
{
    if legs.len() > 0 {
        lemma_paid_bounds(legs.drop_last(), prices);
    }
}

proof fn lemma_leg_cost(leg: LegView, p: int, mult: Double, m: int)
    requires
        priced_at(leg, p),
        leg.quantity <= EXACT,
        -EXACT <= p <= EXACT,
        is_whole(mult, m),
        1 <= m <= 100,
        100 * size_of(p * leg.quantity) <= EXACT,
    ensures
        is_whole(
            leg_cost(leg, mult),
            m * match leg.side {
                OrderSide::Buy => p * leg.quantity,
                OrderSide::Sell => -(p * leg.quantity),
            },
        ),
{
    let q: int = leg.quantity as int;
    lemma_whole_zero();
    lemma_whole_is_whole(p);
    lemma_whole_is_whole(q);
    let price: Double = match leg.limit_price {
        Some(x) => x,
        None => Double::of(false, 0),
    };
    assert(is_whole(price, p));
    lemma_whole_product(price, Double::whole(q), p, q);
    let pq: int = p * q;
    assert(-EXACT <= pq * m <= EXACT) by (nonlinear_arith)
        requires
            1 <= m <= 100,
            100 * (if pq < 0 { -pq } else { pq }) <= EXACT,
    ;
    lemma_whole_product(price.product(Double::whole(q)), mult, pq, m);
    let cost: Double = price.product(Double::whole(q)).product(mult);
    lemma_whole_opposite(cost, pq * m);
    assert(pq * m == m * pq && -(pq * m) == m * (-pq)) by (nonlinear_arith);
}

proof fn lemma_total_cost(legs: Seq<LegView>, prices: Seq<int>, mult: Double, m: int)
    requires
        priced_in_dollars(legs, prices),
        is_whole(mult, m),
        1 <= m <= 100,
    ensures
        total_cost(legs, mult) == Double::whole(m * paid(legs, prices)),
    decreases legs.len(),
{
    lemma_paid_bounds(legs, prices);
    if legs.len() == 0 {
        lemma_whole_zero();
        assert(m * 0 == 0);
    } else {
        let front: Seq<LegView> = legs.drop_last();
        let fewer: Seq<int> = prices.drop_last();
        let k: int = legs.len() - 1;
        lemma_same_prices(front, prices, fewer);
        lemma_paid_bounds(front, fewer);
        assert forall|i: int| 0 <= i < front.len() implies priced_at(
            #[trigger] front[i],
            fewer[i],
        ) && front[i].quantity <= EXACT && -EXACT <= fewer[i] <= EXACT by {
            assert(priced_at(legs[i], prices[i]));
        }
        lemma_total_cost(front, fewer, mult, m);
        assert(priced_at(legs[k], prices[k]));
        lemma_leg_cost(legs[k], prices[k], mult, m);
        let t: int = paid(front, fewer);
        let d: int = paid(legs, prices) - t;
        assert(m * t + m * d == m * (t + d) && -EXACT <= m * (t + d) <= EXACT && -EXACT <= m * t
            <= EXACT) by (nonlinear_arith)
            requires
                1 <= m <= 100,
                100 * (if t + d < 0 { -(t + d) } else { t + d }) <= EXACT,
                100 * (if t < 0 { -t } else { t }) <= EXACT,
        ;
        let before: Double = total_cost(front, mult);
        let cost: Double = leg_cost(legs[k], mult);
        lemma_whole_is_whole(m * t);
        lemma_whole_sum(before, cost, m * t, m * d);
        let after: Double = before.sum(cost);
        if m * (t + d) != 0 {
            lemma_whole_is_unique(after, m * (t + d));
        } else {
            crate::num::laws::law_whole_numbers_are_exact(m * t);
            if m * t < 0 {
                lemma_whole_order(Double::of(false, 0), cost, 0, m * d);
            }
        }
    }
}

proof fn lemma_same_prices(legs: Seq<LegView>, prices: Seq<int>, fewer: Seq<int>)
    requires
        legs.len() <= fewer.len() <= prices.len(),
        forall|i: int| 0 <= i < fewer.len() ==> fewer[i] == prices[i],
    ensures
        paid(legs, prices) == paid(legs, fewer),
        turnover(legs, prices) == turnover(legs, fewer),
    decreases legs.len(),
{
    if legs.len() > 0 {
        lemma_same_prices(legs.drop_last(), prices, fewer);
    }
}

/// Every leg counts. An order that is priced in whole dollars costs the sum over all its legs of
/// price times quantity, positive for what is bought and negative for what is sold, times 100
/// shares, or times one if it trades futures. A debit is needed in full, and of a credit twice
/// as much is needed.
pub proof fn law_every_leg_is_paid_for(legs: Seq<LegView>, prices: Seq<int>)
    requires
        priced_in_dollars(legs, prices),
    ensures
        ({
            let units = if has_future(legs) {
                1
            } else {
                100int
            };
            let sum = paid(legs, prices);
            &&& net_cost(legs) == Double::whole(units * sum)
            &&& sum >= 0 ==> capital(legs) == Double::whole(units * sum)
            &&& sum < 0 ==> capital(legs) == Double::whole(2 * units * -sum)
        }),
{
    law_futures_orders_have_a_future(legs);
    let m: int = if has_future(legs) {
        1
    } else {
        100
    };
    let sum: int = paid(legs, prices);
    lemma_whole_is_whole(1);
    lemma_whole_is_whole(100);
    lemma_total_cost(legs, prices, multiplier_of(legs), m);
    lemma_paid_bounds(legs, prices);
    assert(-EXACT <= m * sum <= EXACT && (sum >= 0 <==> m * sum >= 0) && -EXACT <= (-(m * sum)) * 2
        <= EXACT && (-(m * sum)) * 2 == 2 * m * -sum) by (nonlinear_arith)
        requires
            m == 1 || m == 100,
            200 * (if sum < 0 { -sum } else { sum }) <= EXACT,
    ;
    lemma_whole_zero();
    lemma_whole_is_whole(0);
    lemma_whole_is_whole(2);
    lemma_whole_is_whole(m * sum);
    let net: Double = net_cost(legs);
    lemma_whole_order(Double::of(false, 0), net, 0, m * sum);
    if sum < 0 {
        lemma_whole_absolute(net, m * sum);
        lemma_whole_is_whole(-(m * sum));
        lemma_whole_product(net.absolute(), Double::whole(2), -(m * sum), 2);
    }
}

/// An order without legs costs nothing, and one more leg changes the cost by price times quantity
/// times the shares that a contract stands for, added if it is bought and taken away if it is
/// sold, whatever the numbers are.
pub proof fn law_one_more_leg_changes_the_cost(legs: Seq<LegView>, leg: LegView, mult: Double)
    ensures
        ({
            let price = match leg.limit_price {
                Some(p) => p,
                None => Double::of(false, 0),
            };
            let cost = price.product(Double::whole(leg.quantity as int)).product(mult);
            &&& total_cost(Seq::empty(), mult) == Double::of(false, 0)
            &&& total_cost(legs.push(leg), mult) == match leg.side {
                OrderSide::Buy => total_cost(legs, mult).sum(cost),
                OrderSide::Sell => total_cost(legs, mult).sum(cost.opposite()),
            }
        }),
{
    assert(legs.push(leg).drop_last() =~= legs);
}

/// The cost of an order is that of its legs, and its capital follows from the cost: the cost
/// itself if it is not negative, and twice its size otherwise.
pub proof fn law_capital_follows_from_the_cost(legs: Seq<LegView>)
    ensures
        ({
            let units = if has_future(legs) {
                Double::whole(1)
            } else {
                Double::whole(100)
            };
            let net = total_cost(legs, units);
            &&& net_cost(legs) == net
            &&& Double::of(false, 0).at_most(net) ==> capital(legs) == net
            &&& !Double::of(false, 0).at_most(net) ==> capital(legs) == net.absolute().product(
                Double::whole(2),
            )
        }),
{
    law_futures_orders_have_a_future(legs);
}

} // verus!
