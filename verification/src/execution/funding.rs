//! The capital that an order needs.

use crate::num::double::{lemma_not_below_zero, or_zero, value_or_zero, Double};
use crate::orders::{leg_views, LegView, Order, OrderLeg, OrderSide};
use vstd::prelude::*;

verus! {

/// Whether any leg trades on a futures exchange.
pub open spec fn trades_futures(legs: Seq<LegView>) -> bool {
    exists|i: int| 0 <= i < legs.len() && (#[trigger] legs[i]).instrument.futures()
}

pub fn is_futures_order(legs: &Vec<OrderLeg>) -> (r: bool)
    ensures
        r == trades_futures(leg_views(legs@)),
{
    let mut i: usize = 0;
    while i < legs.len()
        invariant
            i <= legs.len(),
            forall|j: int| 0 <= j < i ==> !(#[trigger] leg_views(legs@)[j]).instrument.futures(),
        decreases legs.len() - i,
    {
        if legs[i].instrument.is_futures() {
            assert(leg_views(legs@)[i as int].instrument.futures());
            return true;
        }
        i = i + 1;
    }
    false
}

/// The limit price of a leg, or zero.
pub open spec fn leg_price(leg: LegView) -> Double {
    or_zero(leg.limit_price)
}

/// What a leg costs: negative if it brings in money.
pub open spec fn leg_cost(leg: LegView, multiplier: Double) -> Double {
    let cost = leg_price(leg).product(Double::whole(leg.quantity as int)).product(multiplier);
    match leg.side {
        OrderSide::Buy => cost,
        OrderSide::Sell => cost.opposite(),
    }
}

/// What legs cost together, added up from the first to the last.
pub open spec fn total_cost(legs: Seq<LegView>, multiplier: Double) -> Double
    decreases legs.len(),
{
    if legs.len() == 0 {
        Double::of(false, 0)
    } else {
        total_cost(legs.drop_last(), multiplier).sum(leg_cost(legs.last(), multiplier))
    }
}

/// Units of the underlying that one contract of an order stands for. An option stands for 100
/// shares.
pub open spec fn multiplier_of(legs: Seq<LegView>) -> Double {
    if trades_futures(legs) {
        Double::whole(1)
    } else {
        Double::whole(100)
    }
}

/// What an order costs: negative if it brings in money.
pub open spec fn net_cost(legs: Seq<LegView>) -> Double {
    total_cost(legs, multiplier_of(legs))
}

/// Capital needed to enter an order. A debit is needed in full, and for a credit twice the
/// credit is set aside.
pub open spec fn capital(legs: Seq<LegView>) -> Double {
    let net = net_cost(legs);
    if Double::of(false, 0).at_most(net) {
        net
    } else {
        net.absolute().product(Double::whole(2))
    }
}

/// The capital needed to enter an order, which is never negative.
pub fn required_capital(order: &Order) -> (r: Double)
    ensures
        r == capital(order@.legs),
        !r.below(Double::of(false, 0)),
{
    let multiplier: Double = if is_futures_order(&order.legs) {
        Double::from_u64(1)
    } else {
        Double::from_u64(100)
    };
    let mut net: Double = Double::zero();
    let mut i: usize = 0;
    let ghost all: Seq<LegView> = leg_views(order.legs@);
    while i < order.legs.len()
        invariant
            i <= order.legs.len(),
            all == leg_views(order.legs@),
            net == total_cost(all.take(i as int), multiplier),
        decreases order.legs.len() - i,
    {
        let leg: &OrderLeg = &order.legs[i];
        let price: Double = value_or_zero(leg.limit_price);
        let cost: Double = price.times(Double::from_u64(leg.quantity)).times(multiplier);
        let signed: Double = match leg.side {
            OrderSide::Buy => cost,
            OrderSide::Sell => cost.negated(),
        };
        net = net.plus(signed);
        assert(all.take(i + 1).drop_last() == all.take(i as int));
        assert(all.take(i + 1).last() == leg@);
        i = i + 1;
    }
    assert(all.take(i as int) == all);
    if Double::zero().le(net) {
        net
    } else {
        let margin: Double = net.abs().times(Double::from_u64(2));
        proof {
            lemma_not_below_zero(margin);
        }
        margin
    }
}

} // verus!
