//! Brokers: which one an order goes to, what is sent to it, and what its replies mean.

pub mod alpaca;
pub mod dryrun;
pub mod laws;
pub mod tradier;
pub mod tradovate;

use crate::execution::funding::{is_futures_order, trades_futures};
use crate::num::double::{or_zero, value_or_zero, Double};
use crate::orders::Order;
use vstd::prelude::*;

verus! {

/// One of the two brokers that orders are spread over.
#[derive(Clone, Copy, Debug, PartialEq, Eq, Structural)]
pub enum Venue {
    Options,
    Futures,
}

/// Spreads orders over two brokers by instrument: anything with a future or an option on one
/// goes to the futures broker, all else to the options broker. Where only the name is known that
/// a broker gave an order, the options broker is asked.
pub struct BrokerRouter;

impl BrokerRouter {
    pub fn new() -> (r: BrokerRouter)
        ensures
            r == BrokerRouter,
    {
        BrokerRouter
    }

    pub fn route(&self, order: &Order) -> (r: Venue)
        ensures
            r == (if trades_futures(order@.legs) {
                Venue::Futures
            } else {
                Venue::Options
            }),
    {
        if is_futures_order(&order.legs) {
            Venue::Futures
        } else {
            Venue::Options
        }
    }

    /// The broker that is asked to cancel an order by its name.
    pub fn cancel_order(&self) -> (r: Venue)
        ensures
            r == Venue::Options,
    {
        Venue::Options
    }

    /// The broker that is asked for the state of an order by its name.
    pub fn get_status(&self) -> (r: Venue)
        ensures
            r == Venue::Options,
    {
        Venue::Options
    }

    /// The buying power at both brokers. One that does not tell counts as having none.
    pub fn account_buying_power(options: Option<Double>, futures: Option<Double>) -> (r: Double)
        ensures
            r == or_zero(options).sum(or_zero(futures)),
    {
        value_or_zero(options).plus(value_or_zero(futures))
    }
}

} // verus!
