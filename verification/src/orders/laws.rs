//! What holds of the record of orders and positions, and of what is told from it.

use super::persistence::{
    applied, filled, first_with_id, history, lines_with_content, log_content, log_entries,
    readable, reconstructed, restored, with_order, with_status, EventView, OmsEvent, StateView,
};
use super::store::{enumerates_orders, lists_ids};
use super::{
    after_equity_event, hedge, open_only, option_key, requoted, OrderStatus, OrderView, PositionView,
};
use crate::data::{MarketEvent, OptionQuoteEvent};
use crate::num::double::Double;
use crate::num::laws::{law_whole_numbers_are_exact, lemma_opposite_units, lemma_sum_of_units};
use crate::outside::{hex, hex_digit, uuid_text};
use crate::text::{pieces, trimmed};
use vstd::arithmetic::power::{lemma_pow1, lemma_pow_adds, lemma_pow_positive, pow};
use vstd::prelude::*;

verus! {

// ── Identifiers ─────────────────────────────────────────────────────────────

proof fn lemma_hex_len(n: nat, width: nat)
    ensures
        hex(n, width).len() == width,
    decreases width,
{
    if width > 0 {
        lemma_hex_len(n / 16, (width - 1) as nat);
    }
}

/// Numbers below a bound that are written with the same digits are equal.
proof fn lemma_hex_injective(a: nat, b: nat, width: nat, bound: nat)
    requires
        hex(a, width) == hex(b, width),
        bound == pow(16, width),
    ensures
        a % bound == b % bound,
    decreases width,
{
    if width == 0 {
        vstd::arithmetic::power::lemma_pow0(16);
    } else {
        let w: nat = (width - 1) as nat;
        let x: Seq<char> = hex(a / 16, w);
        let y: Seq<char> = hex(b / 16, w);
        lemma_hex_len(a / 16, w);
        lemma_hex_len(b / 16, w);
        assert(hex(a, width).drop_last() =~= x);
        assert(hex(b, width).drop_last() =~= y);
        assert(hex(a, width).last() == hex_digit((a % 16) as int));
        assert(hex(b, width).last() == hex_digit((b % 16) as int));
        assert(a % 16 == b % 16);
        lemma_pow_positive(16, w);
        let p: nat = pow(16, w) as nat;
        lemma_hex_injective(a / 16, b / 16, w, p);
        lemma_pow_adds(16, 1, w);
        lemma_pow1(16);
        assert(bound == 16 * p);
        vstd::arithmetic::div_mod::lemma_mod_breakdown(a as int, 16, p as int);
        vstd::arithmetic::div_mod::lemma_mod_breakdown(b as int, 16, p as int);
    }
}

/// Two identifiers that are written alike are the same, so that the text of an identifier
/// stands for one order only.
pub proof fn law_identifiers_are_written_apart(a: u128, b: u128)
    ensures
        uuid_text(a) == uuid_text(b) ==> a == b,
{
    if uuid_text(a) == uuid_text(b) {
        let m: nat = a as nat;
        let n: nat = b as nat;
        lemma_parts(a);
        lemma_parts(b);
        let s: Seq<char> = uuid_text(a);
        assert(hex(m / 0x1_0000_0000_0000_0000_0000_0000, 8) == hex(
            n / 0x1_0000_0000_0000_0000_0000_0000,
            8,
        ));
        lemma_pow16();
        lemma_hex_injective(
            m / 0x1_0000_0000_0000_0000_0000_0000,
            n / 0x1_0000_0000_0000_0000_0000_0000,
            8,
            0x1_0000_0000,
        );
        lemma_hex_injective(
            m / 0x1_0000_0000_0000_0000_0000,
            n / 0x1_0000_0000_0000_0000_0000,
            4,
            0x1_0000,
        );
        lemma_hex_injective(m / 0x1_0000_0000_0000_0000, n / 0x1_0000_0000_0000_0000, 4, 0x1_0000);
        lemma_hex_injective(m / 0x1_0000_0000_0000, n / 0x1_0000_0000_0000, 4, 0x1_0000);
        lemma_hex_injective(m, n, 12, 0x1_0000_0000_0000);
        assert(a == b) by (bit_vector)
            requires
                (a / 0x1_0000_0000_0000_0000_0000_0000) % 0x1_0000_0000 == (b
                    / 0x1_0000_0000_0000_0000_0000_0000) % 0x1_0000_0000,
                (a / 0x1_0000_0000_0000_0000_0000) % 0x1_0000 == (b
                    / 0x1_0000_0000_0000_0000_0000) % 0x1_0000,
                (a / 0x1_0000_0000_0000_0000) % 0x1_0000 == (b / 0x1_0000_0000_0000_0000)
                    % 0x1_0000,
                (a / 0x1_0000_0000_0000) % 0x1_0000 == (b / 0x1_0000_0000_0000) % 0x1_0000,
                a % 0x1_0000_0000_0000 == b % 0x1_0000_0000_0000,
        ;
    }
}

/// Where the groups of digits stand.
proof fn lemma_parts(id: u128)
    ensures
        ({
            let n = id as nat;
            let s = uuid_text(id);
            &&& s.len() == 36
            &&& s.subrange(0, 8) == hex(n / 0x1_0000_0000_0000_0000_0000_0000, 8)
            &&& s.subrange(9, 13) == hex(n / 0x1_0000_0000_0000_0000_0000, 4)
            &&& s.subrange(14, 18) == hex(n / 0x1_0000_0000_0000_0000, 4)
            &&& s.subrange(19, 23) == hex(n / 0x1_0000_0000_0000, 4)
            &&& s.subrange(24, 36) == hex(n, 12)
        }),
{
    let n: nat = id as nat;
    let s: Seq<char> = uuid_text(id);
    lemma_hex_len(n / 0x1_0000_0000_0000_0000_0000_0000, 8);
    lemma_hex_len(n / 0x1_0000_0000_0000_0000_0000, 4);
    lemma_hex_len(n / 0x1_0000_0000_0000_0000, 4);
    lemma_hex_len(n / 0x1_0000_0000_0000, 4);
    lemma_hex_len(n, 12);
    assert(s.subrange(0, 8) =~= hex(n / 0x1_0000_0000_0000_0000_0000_0000, 8));
    assert(s.subrange(9, 13) =~= hex(n / 0x1_0000_0000_0000_0000_0000, 4));
    assert(s.subrange(14, 18) =~= hex(n / 0x1_0000_0000_0000_0000, 4));
    assert(s.subrange(19, 23) =~= hex(n / 0x1_0000_0000_0000, 4));
    assert(s.subrange(24, 36) =~= hex(n, 12));
}

proof fn lemma_pow16()
    ensures
        pow(16, 4) == 0x1_0000,
        pow(16, 8) == 0x1_0000_0000,
        pow(16, 12) == 0x1_0000_0000_0000,
{
    reveal_with_fuel(pow, 5);
    lemma_pow_adds(16, 4, 4);
    lemma_pow_adds(16, 8, 4);
    assert(pow(16, 4) == 0x1_0000);
    assert(0x1_0000 * 0x1_0000 == 0x1_0000_0000);
}

// ── The state that a record gives ───────────────────────────────────────────

/// An event that is kept for the record only changes nothing.
pub proof fn law_record_only_events_change_nothing(s: StateView, e: EventView)
    requires
        e.record_only(),
    ensures
        applied(s, e) == s,
{
}

/// Appending an event to a record applies it to the state that the record gives.
pub proof fn law_records_grow_event_by_event(events: Seq<EventView>, e: EventView)
    ensures
        history(events.push(e)) == applied(history(events), e),
{
    assert(events.push(e).drop_last() == events);
}

/// Whether every symbol has at most one position.
pub open spec fn one_per_symbol(ps: Seq<PositionView>) -> bool {
    forall|i: int, j: int|
        0 <= i < ps.len() && 0 <= j < ps.len() && #[trigger] ps[i].symbol == #[trigger] ps[j].symbol
            ==> i == j
}

proof fn lemma_filter_one_per_symbol(ps: Seq<PositionView>, keep: spec_fn(PositionView) -> bool)
    requires
        one_per_symbol(ps),
    ensures
        one_per_symbol(ps.filter(keep)),
        forall|i: int| 0 <= i < ps.filter(keep).len() ==> keep(#[trigger] ps.filter(keep)[i]),
        forall|i: int|
            0 <= i < ps.filter(keep).len() ==> ps.contains(#[trigger] ps.filter(keep)[i]),
    decreases ps.len(),
{
    reveal(Seq::filter);
    if ps.len() > 0 {
        let front: Seq<PositionView> = ps.drop_last();
        assert forall|i: int, j: int|
            0 <= i < front.len() && 0 <= j < front.len() && #[trigger] front[i].symbol
                == #[trigger] front[j].symbol implies i == j by {
            assert(ps[i].symbol == ps[j].symbol);
        }
        lemma_filter_one_per_symbol(front, keep);
        let kept: Seq<PositionView> = front.filter(keep);
        assert forall|i: int| 0 <= i < kept.len() implies ps.contains(#[trigger] kept[i]) by {
            assert(front.contains(kept[i]));
            let k: int = choose|k: int| 0 <= k < front.len() && front[k] == kept[i];
            assert(ps[k] == kept[i]);
        }
        if keep(ps.last()) {
            assert(ps.filter(keep) == kept.push(ps.last()));
            assert forall|i: int| 0 <= i < kept.len() implies #[trigger] kept[i].symbol
                != ps.last().symbol by {
                assert(front.contains(kept[i]));
                let k: int = choose|k: int| 0 <= k < front.len() && front[k] == kept[i];
                assert(ps[k].symbol == kept[i].symbol);
                assert(ps[ps.len() - 1] == ps.last());
            }
            assert(ps.contains(ps.last())) by {
                assert(ps[ps.len() - 1] == ps.last());
            }
        }
    }
}

/// A record never gives two positions in one symbol.
pub proof fn law_positions_are_unique(events: Seq<EventView>)
    ensures
        one_per_symbol(history(events).positions),
    decreases events.len(),
{
    if events.len() > 0 {
        law_positions_are_unique(events.drop_last());
        let ps: Seq<PositionView> = history(events.drop_last()).positions;
        match events.last() {
            EventView::PositionUpdated { position, .. } => {
                lemma_filter_one_per_symbol(ps, |x: PositionView| x.symbol != position.symbol);
            },
            _ => {},
        }
    }
}

/// The position of a symbol is the one that was recorded last.
pub proof fn law_last_position_counts(events: Seq<EventView>, ts: Seq<char>, p: PositionView)
    ensures
        ({
            let after = history(events.push(EventView::PositionUpdated { ts, position: p }));
            &&& after.positions.len() > 0
            &&& after.positions.last() == p
            &&& after.orders == history(events).orders
        }),
{
    law_records_grow_event_by_event(events, EventView::PositionUpdated { ts, position: p });
}

/// The identifiers of the orders that a record says were submitted, in that order.
pub open spec fn submitted_ids(events: Seq<EventView>) -> Seq<u128>
    decreases events.len(),
{
    if events.len() == 0 {
        Seq::empty()
    } else {
        match events.last() {
            EventView::OrderSubmitted { order, .. } => submitted_ids(events.drop_last()).push(
                order.id,
            ),
            _ => submitted_ids(events.drop_last()),
        }
    }
}

pub open spec fn ids(orders: Seq<OrderView>) -> Seq<u128> {
    orders.map_values(|o: OrderView| o.id)
}

proof fn lemma_with_order_keeps_ids(
    orders: Seq<OrderView>,
    id: Seq<char>,
    change: spec_fn(OrderView) -> OrderView,
)
    requires
        forall|o: OrderView| (#[trigger] change(o)).id == o.id,
    ensures
        ids(with_order(orders, id, change)) == ids(orders),
{
    assert(ids(with_order(orders, id, change)) =~= ids(orders));
}

/// A record gives the orders that were submitted, no more and no fewer, in the order of their
/// submission. What happens to an order later never removes it or changes its identifier.
pub proof fn law_every_submitted_order_is_kept(events: Seq<EventView>)
    ensures
        ids(history(events).orders) == submitted_ids(events),
    decreases events.len(),
{
    if events.len() == 0 {
        assert(ids(history(events).orders) =~= submitted_ids(events));
    } else {
        law_every_submitted_order_is_kept(events.drop_last());
        let orders: Seq<OrderView> = history(events.drop_last()).orders;
        match events.last() {
            EventView::OrderSubmitted { order, .. } => {
                assert(ids(orders.push(order)) =~= ids(orders).push(order.id));
            },
            EventView::OrderFilled { order_id, broker_id, fill_qty, fill_price, .. } => {
                lemma_with_order_keeps_ids(
                    orders,
                    order_id,
                    |o: OrderView|
                        filled(o, broker_id, fill_qty, fill_price),
                );
            },
            EventView::OrderCancelled { order_id, .. } => {
                lemma_with_order_keeps_ids(
                    orders,
                    order_id,
                    |o: OrderView| with_status(o, OrderStatus::Cancelled),
                );
            },
            EventView::OrderRejected { order_id, .. } => {
                lemma_with_order_keeps_ids(
                    orders,
                    order_id,
                    |o: OrderView| with_status(o, OrderStatus::Rejected),
                );
            },
            _ => {},
        }
    }
}

proof fn lemma_open_only(orders: Seq<OrderView>, o: OrderView)
    ensures
        open_only(orders).contains(o) <==> orders.contains(o) && o.status.open(),
    decreases orders.len(),
{
    reveal(Seq::filter);
    if orders.len() > 0 {
        let front: Seq<OrderView> = orders.drop_last();
        lemma_open_only(front, o);
        assert(orders == front.push(orders.last()));
        assert(orders.contains(o) <==> front.contains(o) || o == orders.last()) by {
            if orders.contains(o) {
                let k: int = choose|k: int| 0 <= k < orders.len() && orders[k] == o;
                if k < front.len() {
                    assert(front[k] == o);
                }
            }
            if front.contains(o) {
                let k: int = choose|k: int| 0 <= k < front.len() && front[k] == o;
                assert(orders[k] == o);
            }
            assert(orders[orders.len() - 1] == orders.last());
        }
        let kept: Seq<OrderView> = open_only(front);
        if orders.last().status.open() {
            assert(open_only(orders) == kept.push(orders.last()));
            assert(open_only(orders).contains(o) <==> kept.contains(o) || o == orders.last()) by {
                if open_only(orders).contains(o) {
                    let k: int = choose|k: int|
                        0 <= k < open_only(orders).len() && open_only(orders)[k] == o;
                    if k < kept.len() {
                        assert(kept[k] == o);
                    }
                }
                if kept.contains(o) {
                    let k: int = choose|k: int| 0 <= k < kept.len() && kept[k] == o;
                    assert(open_only(orders)[k] == o);
                }
                assert(open_only(orders)[kept.len() as int] == orders.last());
            }
        } else {
            assert(open_only(orders) == kept);
        }
    }
}

/// The open orders are exactly those that may still be filled.
pub proof fn law_open_orders_are_the_unfinished_ones(events: Seq<EventView>, o: OrderView)
    ensures
        reconstructed(events).open_orders.contains(o) <==> reconstructed(events).orders.contains(o)
            && o.status.open(),
{
    lemma_open_only(history(events).orders, o);
}

/// An order that the broker accepted, and that was recorded, is open after a restart.
pub proof fn law_submitted_orders_survive_a_restart(
    events: Seq<EventView>,
    ts: Seq<char>,
    o: OrderView,
)
    requires
        o.status == OrderStatus::Submitted,
    ensures
        reconstructed(events.push(EventView::OrderSubmitted { ts, order: o })).open_orders.contains(
            o,
        ),
{
    let all: Seq<EventView> = events.push(EventView::OrderSubmitted { ts, order: o });
    law_records_grow_event_by_event(events, EventView::OrderSubmitted { ts, order: o });
    law_open_orders_are_the_unfinished_ones(all, o);
    let orders: Seq<OrderView> = history(all).orders;
    assert(orders[orders.len() - 1] == o);
}

/// Once the end of an order is recorded it is not open any more; all other orders stay as they
/// were. An order ends when it is filled, cancelled or rejected.
pub proof fn law_finished_orders_are_closed(events: Seq<EventView>, e: EventView, i: int)
    requires
        match e {
            EventView::OrderFilled { order_id, .. } => first_with_id(
                history(events).orders,
                order_id,
                i,
            ),
            EventView::OrderCancelled { order_id, .. } => first_with_id(
                history(events).orders,
                order_id,
                i,
            ),
            EventView::OrderRejected { order_id, .. } => first_with_id(
                history(events).orders,
                order_id,
                i,
            ),
            _ => false,
        },
    ensures
        ({
            let before = history(events).orders;
            let after = history(events.push(e)).orders;
            &&& after.len() == before.len()
            &&& after[i].id == before[i].id
            &&& !after[i].status.open()
            &&& forall|j: int| 0 <= j < before.len() && j != i ==> #[trigger] after[j] == before[j]
        }),
{
    law_records_grow_event_by_event(events, e);
    let before: Seq<OrderView> = history(events).orders;
    let id: Seq<char> = uuid_text(before[i].id);
    let k: int = choose|k: int| first_with_id(before, id, k);
    assert(first_with_id(before, id, k));
    if k < i {
        assert(uuid_text(before[k].id) != id);
    }
    if i < k {
        assert(uuid_text(before[i].id) != id);
    }
}

/// Orders of a list with distinct identifiers are all held after they have been restored.
pub proof fn law_restored_orders_are_held(
    m: Map<u128, OrderView>,
    orders: Seq<OrderView>,
    i: int,
)
    requires
        0 <= i < orders.len(),
        ids(orders).no_duplicates(),
    ensures
        restored(m, orders).contains_key(orders[i].id),
        restored(m, orders)[orders[i].id] == orders[i],
    decreases orders.len(),
{
    let front: Seq<OrderView> = orders.drop_last();
    if i < front.len() {
        assert(ids(front).no_duplicates()) by {
            assert forall|a: int, b: int|
                0 <= a < front.len() && 0 <= b < front.len() && a != b implies #[trigger] ids(
                front,
            )[a] != #[trigger] ids(front)[b] by {
                assert(ids(orders)[a] != ids(orders)[b]);
            }
        }
        law_restored_orders_are_held(m, front, i);
        assert(ids(orders)[i] != ids(orders)[orders.len() - 1]);
    }
}

// ── Orders and positions that are held ──────────────────────────────────────

/// An order that was submitted is found under its identifier, and all others are as before.
pub proof fn law_submitted_orders_are_found(m: Map<u128, OrderView>, o: OrderView, id: u128)
    ensures
        m.insert(o.id, o).contains_key(o.id),
        m.insert(o.id, o)[o.id] == o,
        id != o.id ==> (m.insert(o.id, o).contains_key(id) <==> m.contains_key(id)),
        id != o.id && m.contains_key(id) ==> m.insert(o.id, o)[id] == m[id],
{
}

/// Whether an order is the last of its identifier in a list.
pub open spec fn latest(orders: Seq<OrderView>, i: int) -> bool {
    &&& 0 <= i < orders.len()
    &&& forall|j: int| i < j < orders.len() ==> (#[trigger] orders[j]).id != orders[i].id
}

/// What is held of an identifier after submissions: the last order that has it.
proof fn lemma_held_is_latest(orders: Seq<OrderView>, id: u128)
    ensures
        ({
            let m = restored(Map::empty(), orders);
            &&& m.contains_key(id) ==> exists|i: int| #[trigger]
                latest(orders, i) && orders[i].id == id && orders[i] == m[id]
            &&& forall|i: int| #[trigger]
                latest(orders, i) && orders[i].id == id ==> m.contains_key(id) && m[id] == orders[i]
        }),
    decreases orders.len(),
{
    if orders.len() > 0 {
        let front: Seq<OrderView> = orders.drop_last();
        let last: int = orders.len() - 1;
        let m: Map<u128, OrderView> = restored(Map::empty(), orders);
        lemma_held_is_latest(front, id);
        if orders[last].id == id {
            assert(latest(orders, last));
            assert forall|i: int| #[trigger] latest(orders, i) && orders[i].id == id implies i
                == last by {
                if i < last {
                    assert(orders[last].id != orders[i].id);
                }
            }
        } else {
            assert forall|i: int| #[trigger] latest(front, i) && front[i].id == id implies latest(
                orders,
                i,
            ) by {
                assert forall|j: int| i < j < orders.len() implies (#[trigger] orders[j]).id
                    != orders[i].id by {
                    if j < last {
                        assert(front[j] == orders[j]);
                    }
                }
            }
            assert forall|i: int| #[trigger] latest(orders, i) && orders[i].id == id implies latest(
                front,
                i,
            ) by {
                assert forall|j: int| i < j < front.len() implies (#[trigger] front[j]).id
                    != front[i].id by {
                    assert(orders[j].id != orders[i].id);
                }
            }
        }
    }
}

/// Orders of a list of distinct ones are distinct.
proof fn lemma_open_only_distinct(orders: Seq<OrderView>)
    requires
        ids(orders).no_duplicates(),
    ensures
        ids(open_only(orders)).no_duplicates(),
    decreases orders.len(),
{
    reveal(Seq::filter);
    if orders.len() > 0 {
        let front: Seq<OrderView> = orders.drop_last();
        assert(ids(front) =~= ids(orders).drop_last());
        lemma_open_only_distinct(front);
        let kept: Seq<OrderView> = open_only(front);
        if orders.last().status.open() {
            assert(open_only(orders) == kept.push(orders.last()));
            assert forall|a: int| 0 <= a < kept.len() implies #[trigger] kept[a].id
                != orders.last().id by {
                lemma_open_only(front, kept[a]);
                assert(kept.contains(kept[a]));
                let k: int = choose|k: int| 0 <= k < front.len() && front[k] == kept[a];
                assert(ids(orders)[k] != ids(orders)[orders.len() - 1]);
            }
            assert forall|a: int, b: int|
                0 <= a < b < open_only(orders).len() implies #[trigger] ids(open_only(orders))[a]
                != #[trigger] ids(open_only(orders))[b] by {
                assert(open_only(orders)[a] == kept[a]);
                if b < kept.len() {
                    assert(ids(kept)[a] != ids(kept)[b]);
                }
            }
        }
    }
}

/// After any submissions to a system that held nothing, the open orders that it gives, in
/// whatever order, are the last ones of their identifiers that may still be filled, each once,
/// and no others.
pub proof fn law_open_orders_are_the_latest_ones(
    orders: Seq<OrderView>,
    all: Seq<OrderView>,
    o: OrderView,
)
    requires
        enumerates_orders(all, restored(Map::empty(), orders)),
    ensures
        open_only(all).contains(o) <==> o.status.open() && exists|i: int| #[trigger]
            latest(orders, i) && orders[i] == o,
        ids(open_only(all)).no_duplicates(),
{
    let m: Map<u128, OrderView> = restored(Map::empty(), orders);
    let keys: Seq<u128> = choose|keys: Seq<u128>| #[trigger]
        lists_ids(keys, m) && all == keys.map_values(|id: u128| m[id]);
    lemma_open_only(all, o);
    assert(keys =~= ids(all)) by {
        assert forall|k: int| 0 <= k < keys.len() implies keys[k] == ids(all)[k] by {
            assert(keys.to_set().contains(keys[k]));
            lemma_held_is_latest(orders, keys[k]);
        }
    }
    lemma_open_only_distinct(all);
    if all.contains(o) {
        let k: int = choose|k: int| 0 <= k < all.len() && all[k] == o;
        assert(keys.to_set().contains(keys[k]));
        lemma_held_is_latest(orders, keys[k]);
    }
    if exists|i: int| #[trigger] latest(orders, i) && orders[i] == o {
        lemma_held_is_latest(orders, o.id);
        assert(m.contains_key(o.id) && m[o.id] == o);
        assert(keys.to_set().contains(o.id));
        let k: int = choose|k: int| 0 <= k < keys.len() && keys[k] == o.id;
        assert(all[k] == o);
    }
}

/// A quote changes the Greeks of the position it is about, and nothing else: no position is
/// added or removed, and quantity and cost stay.
pub proof fn law_quotes_change_greeks_only(
    positions: Map<Seq<char>, PositionView>,
    event: MarketEvent,
    key: Seq<char>,
)
    ensures
        after_equity_event(positions, event).dom() == positions.dom(),
        positions.contains_key(key) ==> {
            let before = positions[key];
            let after = after_equity_event(positions, event)[key];
            &&& after.symbol == before.symbol
            &&& after.quantity == before.quantity
            &&& after.avg_cost == before.avg_cost
            &&& after.instrument == before.instrument
        },
{
    assert(after_equity_event(positions, event).dom() =~= positions.dom());
}

/// After a quote the position it is about has the Greeks of the quote.
pub proof fn law_quotes_reach_their_position(
    positions: Map<Seq<char>, PositionView>,
    q: OptionQuoteEvent,
)
    requires
        positions.contains_key(option_key(q.root@, q.expiration@, q.strike, q.right)),
    ensures
        ({
            let key = option_key(q.root@, q.expiration@, q.strike, q.right);
            after_equity_event(positions, MarketEvent::OptionQuote(q))[key] == requoted(
                positions[key],
                q,
            )
        }),
{
}

/// A hedge of a whole delta brings it to a whole target exactly.
pub proof fn law_hedges_of_whole_deltas_are_exact(delta: int, target: int, tolerance: Double)
    requires
        -0x10_0000_0000_0000 <= delta <= 0x10_0000_0000_0000,
        -0x10_0000_0000_0000 <= target <= 0x10_0000_0000_0000,
        delta != target,
    ensures
        hedge(Double::whole(delta), Double::whole(target), tolerance) matches Some(quantity)
            ==> Double::whole(delta).sum(quantity) == Double::whole(target),
{
    let error: int = delta - target;
    law_whole_numbers_are_exact(delta);
    lemma_opposite_units(target);
    lemma_sum_of_units(
        Double::whole(delta),
        Double::whole(target).opposite(),
        delta,
        -target,
    );
    assert(delta + -target == error);
    lemma_opposite_units(error);
    lemma_sum_of_units(Double::whole(delta), Double::whole(error).opposite(), delta, -error);
    assert(delta + -error == target);
}

// ── Lines ───────────────────────────────────────────────────────────────────

/// Whether an entry can be written as one line: it is not blank, has no white space around it,
/// and no line break in it.
pub open spec fn one_line(entry: Seq<char>) -> bool {
    &&& entry.len() > 0
    &&& trimmed(entry) == entry
    &&& !entry.contains('\n')
}

pub(super) proof fn lemma_pieces_of_line(content: Seq<char>, entry: Seq<char>)
    requires
        !entry.contains('\n'),
    ensures
        pieces(content + entry, '\n').len() == pieces(content, '\n').len(),
        pieces(content, '\n').len() > 0,
        pieces(content + entry, '\n').drop_last() == pieces(content, '\n').drop_last(),
        pieces(content + entry, '\n').last() == pieces(content, '\n').last() + entry,
    decreases entry.len(),
{
    lemma_pieces_some(content);
    if entry.len() == 0 {
        assert(content + entry =~= content);
        assert(pieces(content, '\n').last() + entry =~= pieces(content, '\n').last());
    } else {
        let front: Seq<char> = entry.drop_last();
        assert(!front.contains('\n')) by {
            if front.contains('\n') {
                let k: int = choose|k: int| 0 <= k < front.len() && front[k] == '\n';
                assert(entry[k] == '\n');
            }
        }
        assert(entry.last() != '\n') by {
            assert(entry[entry.len() - 1] == entry.last());
        }
        lemma_pieces_of_line(content, front);
        assert((content + entry).drop_last() =~= content + front);
        assert((content + entry).last() == entry.last());
        let a: Seq<Seq<char>> = pieces(content + front, '\n');
        let b: Seq<Seq<char>> = pieces(content + entry, '\n');
        assert(b == a.update(a.len() - 1, a.last().push(entry.last())));
        assert(b.drop_last() =~= a.drop_last());
        assert(b.last() =~= pieces(content, '\n').last() + entry);
    }
}

proof fn lemma_pieces_some(s: Seq<char>)
    ensures
        pieces(s, '\n').len() > 0,
    decreases s.len(),
{
    if s.len() > 0 {
        lemma_pieces_some(s.drop_last());
    }
}

/// The lines of a record that was written entry by entry: the entries, and an empty last line.
proof fn lemma_log_pieces(entries: Seq<Seq<char>>)
    requires
        forall|i: int| 0 <= i < entries.len() ==> one_line(#[trigger] entries[i]),
    ensures
        pieces(log_content(entries), '\n') == entries.push(Seq::empty()),
    decreases entries.len(),
{
    if entries.len() == 0 {
        assert(pieces(log_content(entries), '\n') =~= entries.push(Seq::empty()));
    } else {
        let front: Seq<Seq<char>> = entries.drop_last();
        assert forall|i: int| 0 <= i < front.len() implies one_line(#[trigger] front[i]) by {
            assert(one_line(entries[i]));
        }
        lemma_log_pieces(front);
        assert(one_line(entries[entries.len() - 1]));
        let content: Seq<char> = log_content(front);
        let entry: Seq<char> = entries.last();
        lemma_pieces_of_line(content, entry);
        let with: Seq<char> = content + entry;
        assert(log_content(entries) =~= with.push('\n'));
        assert(log_content(entries).drop_last() =~= with);
        let p: Seq<Seq<char>> = pieces(with, '\n');
        assert(pieces(log_content(entries), '\n') == p.push(Seq::empty()));
        assert(p.last() =~= entry);
        assert(p.drop_last() =~= front);
        assert(p =~= p.drop_last().push(p.last()));
        assert(entries =~= front.push(entry));
    }
}

proof fn lemma_content_lines(entries: Seq<Seq<char>>)
    requires
        forall|i: int| 0 <= i < entries.len() ==> one_line(#[trigger] entries[i]),
    ensures
        lines_with_content(entries) == entries,
    decreases entries.len(),
{
    if entries.len() == 0 {
        assert(lines_with_content(entries) =~= entries);
    } else {
        let front: Seq<Seq<char>> = entries.drop_last();
        assert forall|i: int| 0 <= i < front.len() implies one_line(#[trigger] front[i]) by {
            assert(one_line(entries[i]));
        }
        lemma_content_lines(front);
        assert(one_line(entries[entries.len() - 1]));
        assert(entries =~= front.push(entries.last()));
    }
}

/// What was appended to a record, each entry as a line, is read back: all of it, in order and
/// unchanged.
pub proof fn law_the_record_gives_back_what_was_written(entries: Seq<Seq<char>>)
    requires
        forall|i: int| 0 <= i < entries.len() ==> one_line(#[trigger] entries[i]),
    ensures
        log_entries(log_content(entries)) == entries,
{
    lemma_log_pieces(entries);
    lemma_content_lines(entries);
    let lines: Seq<Seq<char>> = entries.push(Seq::empty());
    assert(lines.drop_last() =~= entries);
    assert(trimmed(Seq::<char>::empty()) == Seq::<char>::empty());
}

/// An entry that is appended to a record whose last line is complete comes back last, and the
/// entries that were there come back before it, as they were.
pub proof fn law_an_appended_entry_comes_last(content: Seq<char>, entry: Seq<char>)
    requires
        content.len() > 0 ==> content.last() == '\n',
        one_line(entry),
    ensures
        log_entries(content + entry.push('\n')) == log_entries(content).push(entry),
{
    let before: Seq<Seq<char>> = pieces(content, '\n');
    let with: Seq<char> = content + entry;
    let after: Seq<Seq<char>> = pieces(with, '\n');
    lemma_pieces_of_line(content, entry);
    assert(before.last() =~= Seq::empty());
    assert(after.last() =~= entry);
    assert(content + entry.push('\n') =~= with.push('\n'));
    assert(with.push('\n').drop_last() =~= with);
    let lines: Seq<Seq<char>> = pieces(with.push('\n'), '\n');
    assert(lines == after.push(Seq::empty()));
    assert(lines.drop_last() =~= after);
    assert(trimmed(Seq::<char>::empty()) == Seq::<char>::empty());
    assert(lines.last() == Seq::<char>::empty());
    assert(lines_with_content(lines) == lines_with_content(after));
    assert(lines_with_content(after) == lines_with_content(after.drop_last()).push(entry));
    assert(lines_with_content(before) == lines_with_content(before.drop_last()));
}

/// An event that is appended as an entry is replayed last, after the events that were replayed
/// before, however entries are read as events, if the entry is read as the event.
pub proof fn law_an_appended_event_is_replayed_last(
    content: Seq<char>,
    entry: Seq<char>,
    read_as: spec_fn(Seq<char>) -> Option<OmsEvent>,
    e: OmsEvent,
)
    requires
        content.len() > 0 ==> content.last() == '\n',
        one_line(entry),
        read_as(entry) == Some(e),
    ensures
        readable(log_entries(content + entry.push('\n')).map_values(read_as)) == readable(
            log_entries(content).map_values(read_as),
        ).push(e@),
{
    law_an_appended_entry_comes_last(content, entry);
    let read: Seq<Option<OmsEvent>> = log_entries(content).map_values(read_as);
    assert(log_entries(content).push(entry).map_values(read_as) =~= read.push(Some(e)));
    assert(read.push(Some(e)).drop_last() =~= read);
}

} // verus!
