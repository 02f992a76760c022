//! Orders, positions and the record of both.

pub mod laws;
pub mod persistence;
pub mod portfolio_laws;
pub mod record_laws;
pub mod store;
pub mod strategy;

use crate::data::{MarketEvent, OptionQuoteEvent, OptionRight};
use crate::num::double::Double;
use crate::num::format::fixed;
use crate::outside::{fresh_uuid, random_id, utc_now, Timestamp};
use store::{enumerates, holdings, order_book};
use vstd::prelude::*;

pub use strategy::StrategyType;

verus! {

#[derive(Clone, Copy, Debug, PartialEq, Eq, Structural)]
pub enum OrderSide {
    Buy,
    Sell,
}

#[derive(Clone, Copy, Debug, PartialEq, Eq, Structural)]
pub enum OrderType {
    Market,
    Limit,
    Stop,
    StopLimit,
}

#[derive(Clone, Copy, Debug, PartialEq, Eq, Structural)]
pub enum TimeInForce {
    Day,
    GTC,
    IOC,
    FOK,
}

#[derive(Clone, Copy, Debug, PartialEq, Eq, Structural)]
pub enum Instrument {
    EquityOption,
    Future,
    FutureOption,
}

#[derive(Clone, Copy, Debug, PartialEq, Eq, Structural)]
pub enum OrderStatus {
    Pending,
    Submitted,
    PartiallyFilled,
    Filled,
    Cancelled,
    Rejected,
}

impl OrderStatus {
    /// Whether an order in this state may still be filled.
    pub open spec fn open(self) -> bool {
        self is Pending || self is Submitted || self is PartiallyFilled
    }

    pub fn is_open(&self) -> (r: bool)
        ensures
            r == self.open(),
    {
        match self {
            OrderStatus::Pending | OrderStatus::Submitted | OrderStatus::PartiallyFilled => true,
            _ => false,
        }
    }
}

impl Instrument {
    /// Whether the instrument trades on a futures exchange.
    pub open spec fn futures(self) -> bool {
        self is Future || self is FutureOption
    }

    pub fn is_futures(&self) -> (r: bool)
        ensures
            r == self.futures(),
    {
        match self {
            Instrument::Future | Instrument::FutureOption => true,
            Instrument::EquityOption => false,
        }
    }
}

/// A single leg of an order.
#[derive(Debug)]
pub struct OrderLeg {
    pub instrument: Instrument,
    /// As the exchange writes it: `"AAPL  250117C00200000"` or `"ESM5"`.
    pub symbol: String,
    pub side: OrderSide,
    pub quantity: u64,
    pub order_type: OrderType,
    pub limit_price: Option<Double>,
    pub stop_price: Option<Double>,
}

/// What an order leg says.
pub struct LegView {
    pub instrument: Instrument,
    pub symbol: Seq<char>,
    pub side: OrderSide,
    pub quantity: u64,
    pub order_type: OrderType,
    pub limit_price: Option<Double>,
    pub stop_price: Option<Double>,
}

impl View for OrderLeg {
    type V = LegView;

    open spec fn view(&self) -> LegView {
        LegView {
            instrument: self.instrument,
            symbol: self.symbol@,
            side: self.side,
            quantity: self.quantity,
            order_type: self.order_type,
            limit_price: self.limit_price,
            stop_price: self.stop_price,
        }
    }
}

impl Clone for OrderLeg {
    fn clone(&self) -> (r: OrderLeg)
        ensures
            r@ == self@,
    {
        OrderLeg {
            instrument: self.instrument,
            symbol: self.symbol.clone(),
            side: self.side,
            quantity: self.quantity,
            order_type: self.order_type,
            limit_price: self.limit_price,
            stop_price: self.stop_price,
        }
    }
}

/// What the legs of an order say.
pub open spec fn leg_views(legs: Seq<OrderLeg>) -> Seq<LegView> {
    legs.map_values(|l: OrderLeg| l@)
}

/// The four Greeks that are recorded with an order.
#[derive(Clone, Copy, Debug, PartialEq, Eq, Structural)]
pub struct EntryGreeks {
    pub delta: Double,
    pub gamma: Double,
    pub vega: Double,
    pub theta: Double,
}

/// An order with its state at the broker.
#[derive(Debug)]
pub struct Order {
    /// The 128 bits of a UUID.
    pub id: u128,
    pub created_at: Timestamp,
    pub strategy_id: String,
    /// One leg, or several for a spread.
    pub legs: Vec<OrderLeg>,
    pub tif: TimeInForce,
    pub status: OrderStatus,
    pub filled_qty: u64,
    pub avg_fill_px: Double,
    /// What the broker calls the order.
    pub broker_id: Option<String>,
    pub delta_at_entry: Double,
    pub gamma_at_entry: Double,
    pub vega_at_entry: Double,
    pub theta_at_entry: Double,
}

/// What an order says.
pub struct OrderView {
    pub id: u128,
    pub created_at: Timestamp,
    pub strategy_id: Seq<char>,
    pub legs: Seq<LegView>,
    pub tif: TimeInForce,
    pub status: OrderStatus,
    pub filled_qty: u64,
    pub avg_fill_px: Double,
    pub broker_id: Option<Seq<char>>,
    pub delta_at_entry: Double,
    pub gamma_at_entry: Double,
    pub vega_at_entry: Double,
    pub theta_at_entry: Double,
}

impl View for Order {
    type V = OrderView;

    open spec fn view(&self) -> OrderView {
        OrderView {
            id: self.id,
            created_at: self.created_at,
            strategy_id: self.strategy_id@,
            legs: leg_views(self.legs@),
            tif: self.tif,
            status: self.status,
            filled_qty: self.filled_qty,
            avg_fill_px: self.avg_fill_px,
            broker_id: crate::text::maybe(self.broker_id),
            delta_at_entry: self.delta_at_entry,
            gamma_at_entry: self.gamma_at_entry,
            vega_at_entry: self.vega_at_entry,
            theta_at_entry: self.theta_at_entry,
        }
    }
}

/// A new order, as it is before anything has been sent to a broker.
pub open spec fn new_order(
    id: u128,
    created_at: Timestamp,
    strategy_id: Seq<char>,
    legs: Seq<LegView>,
    tif: TimeInForce,
    greeks: EntryGreeks,
) -> OrderView {
    OrderView {
        id,
        created_at,
        strategy_id,
        legs,
        tif,
        status: OrderStatus::Pending,
        filled_qty: 0,
        avg_fill_px: Double::of(false, 0),
        broker_id: None,
        delta_at_entry: greeks.delta,
        gamma_at_entry: greeks.gamma,
        vega_at_entry: greeks.vega,
        theta_at_entry: greeks.theta,
    }
}

impl Clone for Order {
    fn clone(&self) -> (r: Order)
        ensures
            r@ == self@,
    {
        let legs: Vec<OrderLeg> = self.legs.clone();
        assert(leg_views(legs@) =~= leg_views(self.legs@));
        Order {
            id: self.id,
            created_at: self.created_at,
            strategy_id: self.strategy_id.clone(),
            legs,
            tif: self.tif,
            status: self.status,
            filled_qty: self.filled_qty,
            avg_fill_px: self.avg_fill_px,
            broker_id: self.broker_id.clone(),
            delta_at_entry: self.delta_at_entry,
            gamma_at_entry: self.gamma_at_entry,
            vega_at_entry: self.vega_at_entry,
            theta_at_entry: self.theta_at_entry,
        }
    }
}

impl Order {
    /// A new order under a fresh random identifier, created now.
    pub fn new(
        strategy_id: &str,
        legs: Vec<OrderLeg>,
        tif: TimeInForce,
        greeks: EntryGreeks,
    ) -> (r: Order)
        ensures
            r@ == new_order(r.id, r.created_at, strategy_id@, leg_views(legs@), tif, greeks),
            random_id(r.id),
    {
        Order::with_id(fresh_uuid(), utc_now(), strategy_id, legs, tif, greeks)
    }

    /// A new order under a given identifier.
    pub fn with_id(
        id: u128,
        created_at: Timestamp,
        strategy_id: &str,
        legs: Vec<OrderLeg>,
        tif: TimeInForce,
        greeks: EntryGreeks,
    ) -> (r: Order)
        ensures
            r@ == new_order(id, created_at, strategy_id@, leg_views(legs@), tif, greeks),
    {
        Order {
            id,
            created_at,
            strategy_id: strategy_id.to_string(),
            legs,
            tif,
            status: OrderStatus::Pending,
            filled_qty: 0,
            avg_fill_px: Double::zero(),
            broker_id: None,
            delta_at_entry: greeks.delta,
            gamma_at_entry: greeks.gamma,
            vega_at_entry: greeks.vega,
            theta_at_entry: greeks.theta,
        }
    }
}

/// A position with its live Greeks.
#[derive(Debug)]
pub struct Position {
    pub symbol: String,
    /// Positive if long, negative if short.
    pub quantity: i64,
    pub avg_cost: Double,
    pub instrument: Instrument,
    pub delta: Double,
    pub gamma: Double,
    pub theta: Double,
    pub vega: Double,
    pub vanna: Double,
    pub charm: Double,
}

/// What a position says.
pub struct PositionView {
    pub symbol: Seq<char>,
    pub quantity: i64,
    pub avg_cost: Double,
    pub instrument: Instrument,
    pub delta: Double,
    pub gamma: Double,
    pub theta: Double,
    pub vega: Double,
    pub vanna: Double,
    pub charm: Double,
}

impl View for Position {
    type V = PositionView;

    open spec fn view(&self) -> PositionView {
        PositionView {
            symbol: self.symbol@,
            quantity: self.quantity,
            avg_cost: self.avg_cost,
            instrument: self.instrument,
            delta: self.delta,
            gamma: self.gamma,
            theta: self.theta,
            vega: self.vega,
            vanna: self.vanna,
            charm: self.charm,
        }
    }
}

impl Clone for Position {
    fn clone(&self) -> (r: Position)
        ensures
            r@ == self@,
    {
        Position {
            symbol: self.symbol.clone(),
            quantity: self.quantity,
            avg_cost: self.avg_cost,
            instrument: self.instrument,
            delta: self.delta,
            gamma: self.gamma,
            theta: self.theta,
            vega: self.vega,
            vanna: self.vanna,
            charm: self.charm,
        }
    }
}

/// What positions add to the Greeks of the portfolio.
#[derive(Clone, Copy, Debug, PartialEq, Eq, Structural)]
pub struct GreeksContribution {
    pub delta: Double,
    pub gamma: Double,
    pub theta: Double,
    pub vega: Double,
    pub vanna: Double,
    pub charm: Double,
}

impl GreeksContribution {
    pub open spec fn nothing() -> GreeksContribution {
        let z = Double::of(false, 0);
        GreeksContribution { delta: z, gamma: z, theta: z, vega: z, vanna: z, charm: z }
    }

    pub open spec fn with(self, c: GreeksContribution) -> GreeksContribution {
        GreeksContribution {
            delta: self.delta.sum(c.delta),
            gamma: self.gamma.sum(c.gamma),
            theta: self.theta.sum(c.theta),
            vega: self.vega.sum(c.vega),
            vanna: self.vanna.sum(c.vanna),
            charm: self.charm.sum(c.charm),
        }
    }
}

impl Default for GreeksContribution {
    fn default() -> (r: GreeksContribution)
        ensures
            r == GreeksContribution::nothing(),
    {
        let z: Double = Double::zero();
        GreeksContribution { delta: z, gamma: z, theta: z, vega: z, vanna: z, charm: z }
    }
}

/// Each Greek of a position, times its signed quantity.
pub open spec fn contribution(p: PositionView) -> GreeksContribution {
    let n = Double::whole(p.quantity as int);
    GreeksContribution {
        delta: n.product(p.delta),
        gamma: n.product(p.gamma),
        theta: n.product(p.theta),
        vega: n.product(p.vega),
        vanna: n.product(p.vanna),
        charm: n.product(p.charm),
    }
}

/// The Greeks of a list of positions, added up from first to last.
pub open spec fn total_greeks(ps: Seq<PositionView>) -> GreeksContribution
    decreases ps.len(),
{
    if ps.len() == 0 {
        GreeksContribution::nothing()
    } else {
        total_greeks(ps.drop_last()).with(contribution(ps.last()))
    }
}

pub open spec fn position_views(ps: Seq<Position>) -> Seq<PositionView> {
    ps.map_values(|p: Position| p@)
}

impl Position {
    pub fn portfolio_contribution(&self) -> (r: GreeksContribution)
        ensures
            r == contribution(self@),
    {
        let n: Double = Double::from_i64(self.quantity);
        GreeksContribution {
            delta: n.times(self.delta),
            gamma: n.times(self.gamma),
            theta: n.times(self.theta),
            vega: n.times(self.vega),
            vanna: n.times(self.vanna),
            charm: n.times(self.charm),
        }
    }
}

/// Adds up the Greeks of positions from first to last.
pub fn sum_greeks(ps: &Vec<Position>) -> (r: GreeksContribution)
    ensures
        r == total_greeks(position_views(ps@)),
{
    let mut acc: GreeksContribution = GreeksContribution::default();
    let mut i: usize = 0;
    let ghost all: Seq<PositionView> = position_views(ps@);
    while i < ps.len()
        invariant
            i <= ps.len(),
            all == position_views(ps@),
            acc == total_greeks(all.take(i as int)),
        decreases ps.len() - i,
    {
        let c: GreeksContribution = ps[i].portfolio_contribution();
        acc = GreeksContribution {
            delta: acc.delta.plus(c.delta),
            gamma: acc.gamma.plus(c.gamma),
            theta: acc.theta.plus(c.theta),
            vega: acc.vega.plus(c.vega),
            vanna: acc.vanna.plus(c.vanna),
            charm: acc.charm.plus(c.charm),
        };
        assert(all.take(i + 1).drop_last() == all.take(i as int));
        i = i + 1;
    }
    assert(all.take(i as int) == all);
    acc
}

/// The quantity of the underlying that brings a delta to its target, unless the difference is
/// within the tolerance.
pub open spec fn hedge(delta: Double, target: Double, tolerance: Double) -> Option<Double> {
    let error = delta.difference(target);
    if tolerance.below(error.absolute()) {
        Some(error.opposite())
    } else {
        None
    }
}

pub fn hedge_for(delta: Double, target: Double, tolerance: Double) -> (r: Option<Double>)
    ensures
        r == hedge(delta, target, tolerance),
{
    let error: Double = delta.minus(target);
    if tolerance.lt(error.abs()) {
        Some(error.negated())
    } else {
        None
    }
}

/// The key under which the position in an option is held.
pub open spec fn option_key(
    root: Seq<char>,
    expiration: Seq<char>,
    strike: Double,
    right: OptionRight,
) -> Seq<char> {
    root + seq!['_'] + expiration + seq!['_'] + fixed(strike, 0) + seq!['_'] + (match right {
        OptionRight::Call => "Call"@,
        OptionRight::Put => "Put"@,
    })
}

fn option_key_text(q: &OptionQuoteEvent) -> (r: String)
    ensures
        r@ == option_key(q.root@, q.expiration@, q.strike, q.right),
{
    let mut out: String = q.root.clone();
    out.push('_');
    out.append(q.expiration.as_str());
    out.push('_');
    out.append(q.strike.fixed_text(0).as_str());
    out.push('_');
    match q.right {
        OptionRight::Call => out.append("Call"),
        OptionRight::Put => out.append("Put"),
    }
    assert(out@ =~= option_key(q.root@, q.expiration@, q.strike, q.right));
    out
}

/// A position after a quote has renewed its Greeks.
pub open spec fn requoted(p: PositionView, q: OptionQuoteEvent) -> PositionView {
    PositionView {
        delta: q.delta,
        gamma: q.gamma,
        theta: q.theta,
        vega: q.vega,
        vanna: q.vanna,
        charm: q.charm,
        ..p
    }
}

/// The positions after an event of an equity feed.
pub open spec fn after_equity_event(
    positions: Map<Seq<char>, PositionView>,
    event: MarketEvent,
) -> Map<Seq<char>, PositionView> {
    match event {
        MarketEvent::OptionQuote(q) => {
            let key = option_key(q.root@, q.expiration@, q.strike, q.right);
            if positions.contains_key(key) {
                positions.insert(key, requoted(positions[key], q))
            } else {
                positions
            }
        },
        _ => positions,
    }
}

/// Orders by identifier, and positions by key.
pub struct OrderManagementSystem {
    orders: dashmap::DashMap<u128, Order>,
    positions: dashmap::DashMap<String, Position>,
}

impl OrderManagementSystem {
    pub closed spec fn orders_view(self) -> Map<u128, OrderView> {
        order_book(self.orders)
    }

    pub closed spec fn positions_view(self) -> Map<Seq<char>, PositionView> {
        holdings(self.positions)
    }

    /// Every order is held under its own identifier.
    pub open spec fn well_formed(self) -> bool {
        forall|id: u128| #[trigger]
            self.orders_view().contains_key(id) ==> self.orders_view()[id].id == id
    }

    pub fn new() -> (r: OrderManagementSystem)
        ensures
            r.well_formed(),
            r.orders_view() == Map::<u128, OrderView>::empty(),
            r.positions_view() == Map::<Seq<char>, PositionView>::empty(),
    {
        OrderManagementSystem { orders: store::new_orders(), positions: store::new_positions() }
    }

    /// Holds a position under a key, in place of one that was held there.
    pub fn hold(&mut self, key: &str, position: Position)
        ensures
            final(self).orders_view() == old(self).orders_view(),
            final(self).positions_view() == old(self).positions_view().insert(key@, position@),
    {
        store::insert_position(&mut self.positions, key, position);
    }

    /// Renews the Greeks of the position that an option quote is about.
    pub fn on_equity_event(&mut self, event: MarketEvent)
        ensures
            final(self).orders_view() == old(self).orders_view(),
            final(self).positions_view() == after_equity_event(old(self).positions_view(), event),
    {
        match event {
            MarketEvent::OptionQuote(q) => {
                let key: String = option_key_text(&q);
                match store::get_position(&self.positions, key.as_str()) {
                    Some(p) => {
                        let renewed: Position = Position {
                            delta: q.delta,
                            gamma: q.gamma,
                            theta: q.theta,
                            vega: q.vega,
                            vanna: q.vanna,
                            charm: q.charm,
                            ..p
                        };
                        store::insert_position(&mut self.positions, key.as_str(), renewed);
                    },
                    None => {},
                }
            },
            _ => {},
        }
    }

    /// Futures events change no order and no position: the delta of a contract is fixed.
    pub fn on_futures_event(&mut self, event: MarketEvent)
        ensures
            final(self).orders_view() == old(self).orders_view(),
            final(self).positions_view() == old(self).positions_view(),
    {
    }

    /// The Greeks of all positions, added up in some order.
    pub fn portfolio_greeks(&self) -> (r: GreeksContribution)
        ensures
            exists|ps: Seq<PositionView>|
                enumerates(ps, self.positions_view()) && r == total_greeks(ps),
    {
        let ps: Vec<Position> = store::all_positions(&self.positions);
        let r: GreeksContribution = sum_greeks(&ps);
        assert(enumerates(position_views(ps@), self.positions_view()));
        r
    }

    /// The quantity of the underlying to trade, if the delta of the portfolio is off its target
    /// by more than the tolerance.
    pub fn delta_hedge_required(&self, target_delta: Double, delta_tolerance: Double) -> (r: Option<
        Double,
    >)
        ensures
            exists|ps: Seq<PositionView>|
                enumerates(ps, self.positions_view()) && r == hedge(
                    total_greeks(ps).delta,
                    target_delta,
                    delta_tolerance,
                ),
    {
        let total: GreeksContribution = self.portfolio_greeks();
        hedge_for(total.delta, target_delta, delta_tolerance)
    }

    /// Holds an order under its identifier.
    pub fn submit(&mut self, order: Order) -> (r: u128)
        ensures
            r == order.id,
            final(self).orders_view() == old(self).orders_view().insert(order.id, order@),
            final(self).positions_view() == old(self).positions_view(),
            old(self).well_formed() ==> final(self).well_formed(),
    {
        let id: u128 = order.id;
        store::insert_order(&mut self.orders, id, order);
        id
    }

    pub fn get_order(&self, id: u128) -> (r: Option<Order>)
        ensures
            match r {
                Some(o) => self.orders_view().contains_key(id) && o@ == self.orders_view()[id],
                None => !self.orders_view().contains_key(id),
            },
    {
        store::get_order(&self.orders, id)
    }

    /// The orders that may still be filled, in some order.
    pub fn open_orders(&self) -> (r: Vec<Order>)
        ensures
            exists|all: Seq<OrderView>|
                store::enumerates_orders(all, self.orders_view()) && order_views(r@)
                    == open_only(all),
    {
        let all: Vec<Order> = store::all_orders(&self.orders);
        let r: Vec<Order> = select_open(&all);
        assert(store::enumerates_orders(order_views(all@), self.orders_view()));
        r
    }
}

pub open spec fn order_views(orders: Seq<Order>) -> Seq<OrderView> {
    orders.map_values(|o: Order| o@)
}

/// The orders of a list that may still be filled, in the order of the list.
pub open spec fn open_only(orders: Seq<OrderView>) -> Seq<OrderView> {
    orders.filter(|o: OrderView| o.status.open())
}

/// Picks the orders that may still be filled.
pub fn select_open(orders: &Vec<Order>) -> (r: Vec<Order>)
    ensures
        order_views(r@) == open_only(order_views(orders@)),
{
    let mut out: Vec<Order> = Vec::new();
    let mut i: usize = 0;
    let ghost all: Seq<OrderView> = order_views(orders@);
    proof {
        reveal(Seq::filter);
        assert(open_only(all.take(0)) =~= order_views(out@));
    }
    while i < orders.len()
        invariant
            i <= orders.len(),
            all == order_views(orders@),
            order_views(out@) == open_only(all.take(i as int)),
        decreases orders.len() - i,
    {
        proof {
            reveal(Seq::filter);
            assert(all.take(i + 1).drop_last() == all.take(i as int));
        }
        let ghost before: Seq<Order> = out@;
        if orders[i].status.is_open() {
            let o: Order = orders[i].clone();
            out.push(o);
            assert(order_views(out@) =~= order_views(before).push(o@));
        }
        i = i + 1;
    }
    assert(all.take(i as int) == all);
    out
}

} // verus!
