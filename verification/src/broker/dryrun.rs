//! A broker that accepts every order and trades nothing.

use crate::num::double::Double;
use crate::orders::{Order, OrderStatus};
use crate::outside::{fresh_uuid, random_id, uuid_text, uuid_to_text};
use crate::text;
use crate::text::head;
use vstd::prelude::*;

verus! {

pub struct DryRunBroker {
    buying_power: Double,
}

/// The name of an order that was not sent anywhere: a prefix and the start of an identifier.
pub open spec fn dry_name(id: u128) -> Seq<char> {
    "DRY-"@ + head(uuid_text(id), 8)
}

pub fn dry_name_text(id: u128) -> (r: String)
    ensures
        r@ == dry_name(id),
{
    let mut out: String = "DRY-".to_string();
    out.append(text::head_text(uuid_to_text(id).as_str(), 8).as_str());
    out
}

impl DryRunBroker {
    pub closed spec fn power(self) -> Double {
        self.buying_power
    }

    pub fn new(buying_power: Double) -> (r: DryRunBroker)
        ensures
            r.power() == buying_power,
    {
        DryRunBroker { buying_power }
    }

    /// Accepts an order under a random name.
    pub fn submit_order(&self, order: &Order) -> (r: String)
        ensures
            exists|id: u128| random_id(id) && r@ == #[trigger] dry_name(id),
    {
        let id: u128 = fresh_uuid();
        dry_name_text(id)
    }

    /// Every order is filled at once.
    pub fn get_status(&self, broker_id: &str) -> (r: OrderStatus)
        ensures
            r == OrderStatus::Filled,
    {
        OrderStatus::Filled
    }

    pub fn account_buying_power(&self) -> (r: Double)
        ensures
            r == self.power(),
    {
        self.buying_power
    }
}

} // verus!
