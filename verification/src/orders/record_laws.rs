//! What a record tells, event by event and as a whole.

use super::laws::lemma_pieces_of_line;
use super::persistence::{
    first_with_id, history, lines_with_content, log_entries, readable, reconstructed, restored,
    EventView, OmsEvent,
};
use super::{
    new_order, open_only, EntryGreeks, LegView, OrderStatus, OrderView, PositionView, TimeInForce,
};
use crate::num::double::Double;
use crate::outside::{uuid_text, Timestamp};
use crate::text::{is_space, pieces, trimmed};
use vstd::prelude::*;

verus! {

// ── Lists that are thinned out ──────────────────────────────────────────────

/// Whether `left` is what is left of a list when only some items are kept: `at` gives the places
/// of the kept ones, in order.
pub open spec fn thinned<A>(
    all: Seq<A>,
    keep: spec_fn(A) -> bool,
    left: Seq<A>,
    at: Seq<int>,
) -> bool {
    &&& at.len() == left.len()
    &&& forall|p: int|
        0 <= p < at.len() ==> 0 <= #[trigger] at[p] < all.len() && left[p] == all[at[p]] && keep(
            all[at[p]],
        )
    &&& forall|p: int, q: int| 0 <= p < q < at.len() ==> #[trigger] at[p] < #[trigger] at[q]
    &&& forall|i: int| 0 <= i < all.len() && keep(#[trigger] all[i]) ==> at.contains(i)
}

pub proof fn lemma_thinned<A>(all: Seq<A>, keep: spec_fn(A) -> bool) -> (at: Seq<int>)
    ensures
        thinned(all, keep, all.filter(keep), at),
    decreases all.len(),
{
    reveal(Seq::filter);
    if all.len() == 0 {
        Seq::empty()
    } else {
        let front: Seq<A> = all.drop_last();
        let before: Seq<int> = lemma_thinned(front, keep);
        let last: int = all.len() - 1;
        let at: Seq<int> = if keep(all.last()) {
            before.push(last)
        } else {
            before
        };
        assert forall|i: int| 0 <= i < all.len() && keep(#[trigger] all[i]) implies at.contains(
            i,
        ) by {
            if i < last {
                assert(front[i] == all[i]);
                let p: int = choose|p: int| 0 <= p < before.len() && before[p] == i;
                assert(at[p] == i);
            } else {
                assert(at[before.len() as int] == i);
            }
        }
        at
    }
}

// ── Positions ───────────────────────────────────────────────────────────────

/// The position that an event reports, if it reports one.
pub open spec fn reported(e: EventView) -> Option<PositionView> {
    match e {
        EventView::PositionUpdated { position, .. } => Some(position),
        _ => None,
    }
}

/// Whether the `i`-th event is the last that reports a position in a symbol.
pub open spec fn last_report(events: Seq<EventView>, symbol: Seq<char>, i: int) -> bool {
    &&& 0 <= i < events.len()
    &&& reported(events[i]) matches Some(p) && p.symbol == symbol
    &&& forall|j: int|
        i < j < events.len() ==> !((#[trigger] reported(events[j])) matches Some(p) && p.symbol
            == symbol)
}

/// Whether positions are the last reports of their symbols, in the order of the reports, and all
/// of them; `at` says which events they come from.
pub open spec fn are_last_reports(
    events: Seq<EventView>,
    ps: Seq<PositionView>,
    at: Seq<int>,
) -> bool {
    &&& at.len() == ps.len()
    &&& forall|k: int|
        0 <= k < ps.len() ==> last_report(events, (#[trigger] ps[k]).symbol, at[k]) && reported(
            events[at[k]],
        ) == Some(ps[k])
    &&& forall|k: int, l: int| 0 <= k < l < at.len() ==> #[trigger] at[k] < #[trigger] at[l]
    &&& forall|i: int, symbol: Seq<char>| #[trigger]
        last_report(events, symbol, i) ==> at.contains(i)
}

proof fn lemma_last_report_grows(events: Seq<EventView>, e: EventView, symbol: Seq<char>, i: int)
    requires
        0 <= i < events.len(),
        !(reported(e) matches Some(p) && p.symbol == symbol),
    ensures
        last_report(events.push(e), symbol, i) <==> last_report(events, symbol, i),
{
    let more: Seq<EventView> = events.push(e);
    if last_report(events, symbol, i) {
        assert forall|j: int| i < j < more.len() implies !((#[trigger] reported(
            more[j],
        )) matches Some(p) && p.symbol == symbol) by {
            if j < events.len() {
                assert(!(reported(events[j]) matches Some(p) && p.symbol == symbol));
            }
        }
    }
    if last_report(more, symbol, i) {
        assert forall|j: int| i < j < events.len() implies !((#[trigger] reported(
            events[j],
        )) matches Some(p) && p.symbol == symbol) by {
            assert(!(reported(more[j]) matches Some(p) && p.symbol == symbol));
        }
    }
}

proof fn lemma_positions(events: Seq<EventView>) -> (at: Seq<int>)
    ensures
        are_last_reports(events, history(events).positions, at),
    decreases events.len(),
{
    if events.len() == 0 {
        Seq::empty()
    } else {
        let front: Seq<EventView> = events.drop_last();
        let e: EventView = events.last();
        let n: int = front.len() as int;
        let before: Seq<int> = lemma_positions(front);
        let ps: Seq<PositionView> = history(front).positions;
        assert(front.push(e) =~= events);
        match e {
            EventView::PositionUpdated { position, .. } => {
                let keep: spec_fn(PositionView) -> bool = |x: PositionView|
                    x.symbol != position.symbol;
                let left: Seq<PositionView> = ps.filter(keep);
                let pl: Seq<int> = lemma_thinned(ps, keep);
                let at: Seq<int> = Seq::new(pl.len(), |k: int| before[pl[k]]).push(n);
                let now: Seq<PositionView> = history(events).positions;
                assert(now == left.push(position));
                assert forall|k: int| 0 <= k < now.len() implies last_report(
                    events,
                    (#[trigger] now[k]).symbol,
                    at[k],
                ) && reported(events[at[k]]) == Some(now[k]) by {
                    if k < left.len() {
                        assert(left[k] == ps[pl[k]]);
                        assert(last_report(front, ps[pl[k]].symbol, before[pl[k]]));
                        lemma_last_report_grows(front, e, left[k].symbol, before[pl[k]]);
                    }
                }
                assert forall|k: int, l: int| 0 <= k < l < at.len() implies #[trigger] at[k]
                    < #[trigger] at[l] by {
                    assert(last_report(front, ps[pl[k]].symbol, before[pl[k]]));
                    if l < pl.len() {
                        assert(pl[k] < pl[l]);
                    }
                }
                assert forall|i: int, symbol: Seq<char>| #[trigger]
                    last_report(events, symbol, i) implies at.contains(i) by {
                    if i == n {
                        assert(at[pl.len() as int] == n);
                    } else {
                        assert(symbol != position.symbol) by {
                            assert(reported(events[n]) == Some(position));
                        }
                        lemma_last_report_grows(front, e, symbol, i);
                        let k: int = choose|k: int| 0 <= k < before.len() && before[k] == i;
                        assert(last_report(front, ps[k].symbol, before[k]));
                        assert(keep(ps[k]));
                        let j: int = choose|j: int| 0 <= j < pl.len() && pl[j] == k;
                        assert(at[j] == i);
                    }
                }
                at
            },
            _ => {
                assert(history(events).positions == ps);
                assert forall|k: int| 0 <= k < ps.len() implies last_report(
                    events,
                    (#[trigger] ps[k]).symbol,
                    before[k],
                ) && reported(events[before[k]]) == Some(ps[k]) by {
                    assert(last_report(front, ps[k].symbol, before[k]));
                    lemma_last_report_grows(front, e, ps[k].symbol, before[k]);
                }
                assert forall|i: int, symbol: Seq<char>| #[trigger]
                    last_report(events, symbol, i) implies before.contains(i) by {
                    lemma_last_report_grows(front, e, symbol, i);
                }
                before
            },
        }
    }
}

/// After a restart there is a position for a symbol if and only if the record reports one, and it
/// is the last that was reported, whatever other events came after it. The positions come in
/// the order of those reports.
pub proof fn law_positions_are_the_last_reported(events: Seq<EventView>, symbol: Seq<char>)
    ensures
        exists|at: Seq<int>| are_last_reports(events, reconstructed(events).positions, at),
        (exists|i: int| last_report(events, symbol, i)) <==> (exists|k: int|
            0 <= k < reconstructed(events).positions.len() && (#[trigger] reconstructed(
                events,
            ).positions[k]).symbol == symbol),
        forall|i: int, k: int|
            #![trigger last_report(events, symbol, i), reconstructed(events).positions[k]]
            last_report(events, symbol, i) && 0 <= k < reconstructed(events).positions.len()
                && reconstructed(events).positions[k].symbol == symbol ==> reported(events[i])
                == Some(reconstructed(events).positions[k]),
{
    let ps: Seq<PositionView> = reconstructed(events).positions;
    let at: Seq<int> = lemma_positions(events);
    assert(are_last_reports(events, ps, at));
    if exists|i: int| last_report(events, symbol, i) {
        let i: int = choose|i: int| last_report(events, symbol, i);
        let k: int = choose|k: int| 0 <= k < at.len() && at[k] == i;
        assert(last_report(events, ps[k].symbol, at[k]));
        assert(ps[k].symbol == symbol);
    }
    assert forall|i: int, k: int|
        #![trigger last_report(events, symbol, i), reconstructed(events).positions[k]]
        last_report(events, symbol, i) && 0 <= k < reconstructed(events).positions.len()
            && reconstructed(events).positions[k].symbol == symbol implies reported(events[i])
        == Some(reconstructed(events).positions[k]) by {
        assert(last_report(events, ps[k].symbol, at[k]));
        if i < at[k] {
            assert(!(reported(events[at[k]]) matches Some(p) && p.symbol == symbol));
        }
        if at[k] < i {
            assert(!(reported(events[i]) matches Some(p) && p.symbol == symbol));
        }
    }
}

// ── Orders ──────────────────────────────────────────────────────────────────

/// Whether an order is the first of a list whose identifier is written like this.
pub open spec fn is_first_called(orders: Seq<OrderView>, id: Seq<char>, j: int) -> bool {
    &&& uuid_text(orders[j].id) == id
    &&& forall|i: int| 0 <= i < j ==> uuid_text((#[trigger] orders[i]).id) != id
}

/// Whether two orders differ at most in what the broker reports of them: status, quantity and
/// price of the fill, and the name that the broker gave.
pub open spec fn same_trade(a: OrderView, b: OrderView) -> bool {
    &&& a.id == b.id
    &&& a.created_at == b.created_at
    &&& a.strategy_id == b.strategy_id
    &&& a.legs == b.legs
    &&& a.tif == b.tif
    &&& a.delta_at_entry == b.delta_at_entry
    &&& a.gamma_at_entry == b.gamma_at_entry
    &&& a.vega_at_entry == b.vega_at_entry
    &&& a.theta_at_entry == b.theta_at_entry
}

/// Whether an order has another status and is otherwise the same.
pub open spec fn only_status(a: OrderView, b: OrderView, status: OrderStatus) -> bool {
    &&& same_trade(a, b)
    &&& a.status == status
    &&& a.filled_qty == b.filled_qty
    &&& a.avg_fill_px == b.avg_fill_px
    &&& a.broker_id == b.broker_id
}

proof fn lemma_first_called(orders: Seq<OrderView>, id: Seq<char>)
    ensures
        forall|i: int| #[trigger]
            first_with_id(orders, id, i) <==> 0 <= i < orders.len()
                && is_first_called(orders, id, i),
        forall|i: int, j: int|
            #![trigger is_first_called(orders, id, i), is_first_called(orders, id, j)]
            0 <= i < orders.len() && 0 <= j < orders.len() && is_first_called(orders, id, i)
                && is_first_called(orders, id, j) ==> i == j,
{
    assert forall|i: int| #[trigger]
        first_with_id(orders, id, i) implies 0 <= i < orders.len()
        && is_first_called(orders, id, i) by {
        assert forall|j: int| 0 <= j < i implies uuid_text((#[trigger] orders[j]).id) != id by {
            assert(uuid_text(orders[j].id) != id);
        }
    }
    assert forall|i: int|
        0 <= i < orders.len() && is_first_called(orders, id, i) implies #[trigger]
        first_with_id(orders, id, i) by {
        assert forall|j: int| 0 <= j < i implies uuid_text(#[trigger] orders[j].id) != id by {
            assert(orders[j].id == orders[j].id);
        }
    }
    assert forall|i: int, j: int|
        #![trigger is_first_called(orders, id, i), is_first_called(orders, id, j)]
        0 <= i < orders.len() && 0 <= j < orders.len() && is_first_called(orders, id, i)
            && is_first_called(orders, id, j) implies i == j by {
        if i < j {
            assert(uuid_text(orders[i].id) != id);
        }
        if j < i {
            assert(uuid_text(orders[j].id) != id);
        }
    }
}

/// What one more event changes in what the record tells of orders. A submission adds the order at
/// the end. A fill, a cancellation or a rejection changes the first order of its identifier and
/// no other: a fill its status, quantity, price and name at the broker, the others its status.
/// All other events change no order.
pub proof fn law_events_change_the_order_they_name(events: Seq<EventView>, e: EventView, j: int)
    ensures
        history(Seq::empty()).orders == Seq::<OrderView>::empty(),
        ({
            let before = history(events).orders;
            let after = history(events.push(e)).orders;
            match e {
                EventView::OrderSubmitted { order, .. } => after == before.push(order),
                EventView::OrderFilled { order_id, broker_id, fill_qty, fill_price, .. } => {
                    &&& after.len() == before.len()
                    &&& 0 <= j < before.len() ==> if is_first_called(before, order_id, j) {
                        &&& same_trade(after[j], before[j])
                        &&& after[j].status == OrderStatus::Filled
                        &&& after[j].filled_qty == fill_qty
                        &&& after[j].avg_fill_px == fill_price
                        &&& after[j].broker_id == Some(broker_id)
                    } else {
                        after[j] == before[j]
                    }
                },
                EventView::OrderCancelled { order_id, .. } => {
                    &&& after.len() == before.len()
                    &&& 0 <= j < before.len() ==> if is_first_called(before, order_id, j) {
                        only_status(after[j], before[j], OrderStatus::Cancelled)
                    } else {
                        after[j] == before[j]
                    }
                },
                EventView::OrderRejected { order_id, .. } => {
                    &&& after.len() == before.len()
                    &&& 0 <= j < before.len() ==> if is_first_called(before, order_id, j) {
                        only_status(after[j], before[j], OrderStatus::Rejected)
                    } else {
                        after[j] == before[j]
                    }
                },
                _ => after == before,
            }
        }),
{
    assert(events.push(e).drop_last() =~= events);
    let before: Seq<OrderView> = history(events).orders;
    let id: Seq<char> = match e {
        EventView::OrderFilled { order_id, .. } => order_id,
        EventView::OrderCancelled { order_id, .. } => order_id,
        EventView::OrderRejected { order_id, .. } => order_id,
        _ => Seq::empty(),
    };
    lemma_first_called(before, id);
    if 0 <= j < before.len() && is_first_called(before, id, j) {
        assert(first_with_id(before, id, j));
        let k: int = choose|k: int| first_with_id(before, id, k);
        assert(first_with_id(before, id, k));
        assert(is_first_called(before, id, k));
    }
}

/// A start of the system is told of, with its version, until the next start; no other event
/// changes either, and a start changes no order and no position.
pub proof fn law_the_last_start_is_told(events: Seq<EventView>, e: EventView)
    ensures
        reconstructed(Seq::empty()).last_start is None,
        reconstructed(Seq::empty()).version == Seq::<char>::empty(),
        ({
            let before = reconstructed(events);
            let after = reconstructed(events.push(e));
            match e {
                EventView::SystemStart { ts, version } => {
                    &&& after.last_start == Some(ts)
                    &&& after.version == version
                    &&& after.orders == before.orders
                    &&& after.open_orders == before.open_orders
                    &&& after.positions == before.positions
                },
                _ => after.last_start == before.last_start && after.version == before.version,
            }
        }),
{
    assert(events.push(e).drop_last() =~= events);
}

/// Whether an order in a state may still be filled: it has not been filled in full, cancelled or
/// rejected.
pub open spec fn unfinished(status: OrderStatus) -> bool {
    status != OrderStatus::Filled && status != OrderStatus::Cancelled && status
        != OrderStatus::Rejected
}

/// The open orders of a list are those that are not finished, all of them, each as often as the
/// list has it, in the order of the list.
pub proof fn law_open_orders_are_not_finished(orders: Seq<OrderView>) -> (at: Seq<int>)
    ensures
        thinned(orders, |o: OrderView| unfinished(o.status), open_only(orders), at),
{
    let open: spec_fn(OrderView) -> bool = |o: OrderView| o.status.open();
    let keep: spec_fn(OrderView) -> bool = |o: OrderView| unfinished(o.status);
    assert forall|o: OrderView| #[trigger] open(o) == keep(o) by {}
    let at: Seq<int> = lemma_thinned(orders, open);
    assert(thinned(orders, keep, open_only(orders), at));
    at
}

/// What the record tells of open orders are the unfinished ones among the orders that it tells of.
pub proof fn law_restarts_find_the_unfinished_orders(events: Seq<EventView>) -> (at: Seq<int>)
    ensures
        reconstructed(events).orders == history(events).orders,
        thinned(
            reconstructed(events).orders,
            |o: OrderView| unfinished(o.status),
            reconstructed(events).open_orders,
            at,
        ),
{
    law_open_orders_are_not_finished(history(events).orders)
}

/// Orders that are restored into a system replace those of their identifiers and leave all others
/// alone.
pub proof fn law_restoring_leaves_other_orders_alone(
    m: Map<u128, OrderView>,
    orders: Seq<OrderView>,
    id: u128,
)
    requires
        forall|i: int| 0 <= i < orders.len() ==> (#[trigger] orders[i]).id != id,
    ensures
        restored(m, orders).contains_key(id) <==> m.contains_key(id),
        m.contains_key(id) ==> restored(m, orders)[id] == m[id],
    decreases orders.len(),
{
    if orders.len() > 0 {
        let front: Seq<OrderView> = orders.drop_last();
        assert forall|i: int| 0 <= i < front.len() implies (#[trigger] front[i]).id != id by {
            assert(orders[i].id != id);
        }
        assert(orders[orders.len() - 1].id != id);
        law_restoring_leaves_other_orders_alone(m, front, id);
    }
}

// ── Lines ───────────────────────────────────────────────────────────────────

/// Entries that cannot be read are passed over, and those that can are replayed in their order.
pub proof fn law_unreadable_entries_are_passed_over(read: Seq<Option<OmsEvent>>, e: OmsEvent)
    ensures
        readable(Seq::empty()) == Seq::<EventView>::empty(),
        readable(read.push(None)) == readable(read),
        readable(read.push(Some(e))) == readable(read).push(e@),
{
    assert(read.push(None).drop_last() =~= read);
    assert(read.push(Some(e)).drop_last() =~= read);
}

/// Only white space is cut off a text, at both ends and all of it.
pub proof fn law_trimming_cuts_white_space(s: Seq<char>) -> (ends: (int, int))
    ensures
        0 <= ends.0 <= ends.1 <= s.len(),
        trimmed(s) == s.subrange(ends.0, ends.1),
        forall|i: int| 0 <= i < ends.0 ==> is_space(#[trigger] s[i]),
        forall|i: int| ends.1 <= i < s.len() ==> is_space(#[trigger] s[i]),
        trimmed(s).len() > 0 ==> !is_space(trimmed(s)[0]) && !is_space(trimmed(s).last()),
    decreases s.len(),
{
    if s.len() > 0 && is_space(s[0]) {
        let t: Seq<char> = s.skip(1);
        let (a, b) = law_trimming_cuts_white_space(t);
        assert(t.subrange(a, b) =~= s.subrange(a + 1, b + 1));
        assert forall|i: int| 0 <= i < a + 1 implies is_space(#[trigger] s[i]) by {
            if i > 0 {
                assert(t[i - 1] == s[i]);
            }
        }
        assert forall|i: int| b + 1 <= i < s.len() implies is_space(#[trigger] s[i]) by {
            assert(t[i - 1] == s[i]);
        }
        (a + 1, b + 1)
    } else if s.len() > 0 && is_space(s.last()) {
        let t: Seq<char> = s.drop_last();
        let (a, b) = law_trimming_cuts_white_space(t);
        assert(t.subrange(a, b) =~= s.subrange(a, b));
        assert forall|i: int| 0 <= i < a implies is_space(#[trigger] s[i]) by {
            assert(t[i] == s[i]);
        }
        assert forall|i: int| b <= i < s.len() implies is_space(#[trigger] s[i]) by {
            if i < t.len() {
                assert(t[i] == s[i]);
            }
        }
        (a, b)
    } else {
        assert(s.subrange(0, s.len() as int) =~= s);
        (0, s.len() as int)
    }
}

/// A line that follows complete lines is an entry of the record, without the white space around
/// it, unless it is blank; it makes no difference whether a line break follows it.
pub proof fn law_lines_are_entries(content: Seq<char>, line: Seq<char>)
    requires
        content.len() > 0 ==> content.last() == '\n',
        !line.contains('\n'),
    ensures
        log_entries(Seq::empty()) == Seq::<Seq<char>>::empty(),
        log_entries(content + line) == if trimmed(line).len() == 0 {
            log_entries(content)
        } else {
            log_entries(content).push(trimmed(line))
        },
        log_entries(content + line.push('\n')) == log_entries(content + line),
{
    let before: Seq<Seq<char>> = pieces(content, '\n');
    let with: Seq<char> = content + line;
    let after: Seq<Seq<char>> = pieces(with, '\n');
    lemma_pieces_of_line(content, line);
    let nothing: Seq<Seq<char>> = pieces(Seq::empty(), '\n');
    assert(trimmed(Seq::<char>::empty()) == Seq::<char>::empty());
    assert(nothing.drop_last() =~= Seq::empty());
    assert(lines_with_content(nothing) == lines_with_content(nothing.drop_last()));
    assert(before.last() =~= Seq::empty());
    assert(after.last() =~= line);
    assert(content + line.push('\n') =~= with.push('\n'));
    assert(with.push('\n').drop_last() =~= with);
    let lines: Seq<Seq<char>> = pieces(with.push('\n'), '\n');
    assert(lines == after.push(Seq::empty()));
    assert(lines.drop_last() =~= after);
    assert(lines.last() == Seq::<char>::empty());
    assert(lines_with_content(lines) == lines_with_content(after));
    assert(lines_with_content(before) == lines_with_content(before.drop_last()));
}

/// A new order has what it was made of, and nothing is known of it at any broker: it is pending,
/// nothing of it is filled, and it has no name there.
pub proof fn law_new_orders_are_pending(
    id: u128,
    created_at: Timestamp,
    strategy: Seq<char>,
    legs: Seq<LegView>,
    tif: TimeInForce,
    greeks: EntryGreeks,
)
    ensures
        ({
            let o = new_order(id, created_at, strategy, legs, tif, greeks);
            &&& o.id == id
            &&& o.created_at == created_at
            &&& o.strategy_id == strategy
            &&& o.legs == legs
            &&& o.tif == tif
            &&& o.status == OrderStatus::Pending
            &&& o.filled_qty == 0
            &&& o.avg_fill_px == Double::of(false, 0)
            &&& o.broker_id is None
            &&& o.delta_at_entry == greeks.delta
            &&& o.gamma_at_entry == greeks.gamma
            &&& o.vega_at_entry == greeks.vega
            &&& o.theta_at_entry == greeks.theta
        }),
{
}

} // verus!
