//! The concurrent maps that hold orders and positions.
//!
//! `dashmap` lets a shared map be changed. Here a change takes an exclusive reference, so that
//! a map that is only read stays what it was.

use super::{Order, OrderView, Position, PositionView};
use dashmap::DashMap;
use vstd::prelude::*;

verus! {

#[verifier::external_type_specification]
#[verifier::external_body]
#[verifier::reject_recursive_types(K)]
#[verifier::reject_recursive_types(V)]
#[verifier::reject_recursive_types(S)]
pub struct ExDashMap<K, V, S>(dashmap::DashMap<K, V, S>);

/// What a map of orders holds.
pub uninterp spec fn order_book(m: DashMap<u128, Order>) -> Map<u128, OrderView>;

/// What a map of positions holds.
pub uninterp spec fn holdings(m: DashMap<String, Position>) -> Map<Seq<char>, PositionView>;

/// Whether a list names every value of a map once, by distinct keys.
pub open spec fn enumerates(values: Seq<PositionView>, m: Map<Seq<char>, PositionView>) -> bool {
    exists|keys: Seq<Seq<char>>| #[trigger]
        lists_keys(keys, m) && values == keys.map_values(|k: Seq<char>| m[k])
}

pub open spec fn lists_keys(keys: Seq<Seq<char>>, m: Map<Seq<char>, PositionView>) -> bool {
    keys.no_duplicates() && keys.to_set() == m.dom()
}

/// Whether a list names every order of a map once, by distinct identifiers.
pub open spec fn enumerates_orders(values: Seq<OrderView>, m: Map<u128, OrderView>) -> bool {
    exists|ids: Seq<u128>| #[trigger]
        lists_ids(ids, m) && values == ids.map_values(|id: u128| m[id])
}

pub open spec fn lists_ids(ids: Seq<u128>, m: Map<u128, OrderView>) -> bool {
    ids.no_duplicates() && ids.to_set() == m.dom()
}

/// `DashMap::new` makes an empty map.
#[verifier::external_body]
pub(crate) fn new_orders() -> (r: DashMap<u128, Order>)
    ensures
        order_book(r).is_empty(),
{
    DashMap::new()
}

/// `DashMap::new` makes an empty map.
#[verifier::external_body]
pub(crate) fn new_positions() -> (r: DashMap<String, Position>)
    ensures
        holdings(r).is_empty(),
{
    DashMap::new()
}

/// `DashMap::insert` puts a value under a key, in place of one that was there.
#[verifier::external_body]
pub(crate) fn insert_order(m: &mut DashMap<u128, Order>, id: u128, order: Order)
    ensures
        order_book(*final(m)) == order_book(*old(m)).insert(id, order@),
{
    m.insert(id, order);
}

/// `DashMap::insert` puts a value under a key, in place of one that was there.
#[verifier::external_body]
pub(crate) fn insert_position(m: &mut DashMap<String, Position>, key: &str, position: Position)
    ensures
        holdings(*final(m)) == holdings(*old(m)).insert(key@, position@),
{
    m.insert(key.to_string(), position);
}

/// `DashMap::get` finds the value under a key; what comes back is a copy.
#[verifier::external_body]
pub(crate) fn get_order(m: &DashMap<u128, Order>, id: u128) -> (r: Option<Order>)
    ensures
        match r {
            Some(o) => order_book(*m).contains_key(id) && o@ == order_book(*m)[id],
            None => !order_book(*m).contains_key(id),
        },
{
    m.get(&id).map(|o| o.clone())
}

/// `DashMap::get` finds the value under a key; what comes back is a copy.
#[verifier::external_body]
pub(crate) fn get_position(m: &DashMap<String, Position>, key: &str) -> (r: Option<Position>)
    ensures
        match r {
            Some(p) => holdings(*m).contains_key(key@) && p@ == holdings(*m)[key@],
            None => !holdings(*m).contains_key(key@),
        },
{
    m.get(key).map(|p| p.clone())
}

/// `DashMap::iter` visits every entry once, in an order that is not stated; what comes back
/// are copies of the values.
#[verifier::external_body]
pub(crate) fn all_orders(m: &DashMap<u128, Order>) -> (r: Vec<Order>)
    ensures
        enumerates_orders(super::order_views(r@), order_book(*m)),
{
    m.iter().map(|e| e.value().clone()).collect()
}

/// `DashMap::iter` visits every entry once, in an order that is not stated; what comes back
/// are copies of the values.
#[verifier::external_body]
pub(crate) fn all_positions(m: &DashMap<String, Position>) -> (r: Vec<Position>)
    ensures
        enumerates(super::position_views(r@), holdings(*m)),
{
    m.iter().map(|e| e.value().clone()).collect()
}

} // verus!
