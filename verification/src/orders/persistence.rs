//! The append-only record of everything that happens, and what can be told from it.
//!
//! Each event is one line of text. After a restart the lines are read back and the events are
//! applied from the first to the last.

use super::{
    open_only, order_views, position_views, select_open, Order, OrderManagementSystem,
    OrderStatus, OrderView, Position, PositionView,
};
use crate::num::double::Double;
use crate::outside::{utc_now_text, uuid_text, uuid_to_text};
use crate::text;
use crate::text::{head, maybe, pieces, texts, trimmed};
use vstd::prelude::*;

verus! {

/// Version that is recorded when the system starts.
pub const VERSION: &'static str = "0.1.0";

/// Characters of a market description that the record keeps.
pub const PREVIEW: usize = 200;

#[derive(Debug)]
pub enum OmsEvent {
    OrderSubmitted { ts: String, order: Order },
    OrderFilled {
        ts: String,
        order_id: String,
        broker_id: String,
        fill_qty: u64,
        fill_price: Double,
    },
    OrderCancelled { ts: String, order_id: String, reason: String },
    OrderRejected { ts: String, order_id: String, reason: String },
    PositionUpdated { ts: String, position: Position },
    GreeksUpdated {
        ts: String,
        symbol: String,
        delta: Double,
        gamma: Double,
        theta: Double,
        vega: Double,
    },
    SystemStart { ts: String, version: String },
    SystemStop { ts: String, reason: String },
    SignalReceived {
        ts: String,
        signal_id: String,
        symbol: String,
        strategy_type: String,
        needs_llm: bool,
        zeta_context_preview: String,
    },
    DecisionMade {
        ts: String,
        signal_id: String,
        source: String,
        request_hash: String,
        approved: bool,
        reasoning: String,
        confidence: Double,
        sizing_adjustment: Option<Double>,
    },
    ActionPlanned { ts: String, signal_id: String, action: String, detail: String },
}

/// What an event says.
pub enum EventView {
    OrderSubmitted { ts: Seq<char>, order: OrderView },
    OrderFilled {
        ts: Seq<char>,
        order_id: Seq<char>,
        broker_id: Seq<char>,
        fill_qty: u64,
        fill_price: Double,
    },
    OrderCancelled { ts: Seq<char>, order_id: Seq<char>, reason: Seq<char> },
    OrderRejected { ts: Seq<char>, order_id: Seq<char>, reason: Seq<char> },
    PositionUpdated { ts: Seq<char>, position: PositionView },
    GreeksUpdated {
        ts: Seq<char>,
        symbol: Seq<char>,
        delta: Double,
        gamma: Double,
        theta: Double,
        vega: Double,
    },
    SystemStart { ts: Seq<char>, version: Seq<char> },
    SystemStop { ts: Seq<char>, reason: Seq<char> },
    SignalReceived {
        ts: Seq<char>,
        signal_id: Seq<char>,
        symbol: Seq<char>,
        strategy_type: Seq<char>,
        needs_llm: bool,
        zeta_context_preview: Seq<char>,
    },
    DecisionMade {
        ts: Seq<char>,
        signal_id: Seq<char>,
        source: Seq<char>,
        request_hash: Seq<char>,
        approved: bool,
        reasoning: Seq<char>,
        confidence: Double,
        sizing_adjustment: Option<Double>,
    },
    ActionPlanned { ts: Seq<char>, signal_id: Seq<char>, action: Seq<char>, detail: Seq<char> },
}

impl EventView {
    /// When the event was recorded.
    pub open spec fn stamp(self) -> Seq<char> {
        match self {
            EventView::OrderSubmitted { ts, .. } => ts,
            EventView::OrderFilled { ts, .. } => ts,
            EventView::OrderCancelled { ts, .. } => ts,
            EventView::OrderRejected { ts, .. } => ts,
            EventView::PositionUpdated { ts, .. } => ts,
            EventView::GreeksUpdated { ts, .. } => ts,
            EventView::SystemStart { ts, .. } => ts,
            EventView::SystemStop { ts, .. } => ts,
            EventView::SignalReceived { ts, .. } => ts,
            EventView::DecisionMade { ts, .. } => ts,
            EventView::ActionPlanned { ts, .. } => ts,
        }
    }

    /// Whether the event is kept for the record only: it changes no order and no position.
    pub open spec fn record_only(self) -> bool {
        self is GreeksUpdated || self is SystemStop || self is SignalReceived
            || self is DecisionMade || self is ActionPlanned
    }
}

impl View for OmsEvent {
    type V = EventView;

    open spec fn view(&self) -> EventView {
        match self {
            OmsEvent::OrderSubmitted { ts, order } => EventView::OrderSubmitted {
                ts: ts@,
                order: order@,
            },
            OmsEvent::OrderFilled { ts, order_id, broker_id, fill_qty, fill_price } =>
                EventView::OrderFilled {
                    ts: ts@,
                    order_id: order_id@,
                    broker_id: broker_id@,
                    fill_qty: *fill_qty,
                    fill_price: *fill_price,
                },
            OmsEvent::OrderCancelled { ts, order_id, reason } => EventView::OrderCancelled {
                ts: ts@,
                order_id: order_id@,
                reason: reason@,
            },
            OmsEvent::OrderRejected { ts, order_id, reason } => EventView::OrderRejected {
                ts: ts@,
                order_id: order_id@,
                reason: reason@,
            },
            OmsEvent::PositionUpdated { ts, position } => EventView::PositionUpdated {
                ts: ts@,
                position: position@,
            },
            OmsEvent::GreeksUpdated { ts, symbol, delta, gamma, theta, vega } =>
                EventView::GreeksUpdated {
                    ts: ts@,
                    symbol: symbol@,
                    delta: *delta,
                    gamma: *gamma,
                    theta: *theta,
                    vega: *vega,
                },
            OmsEvent::SystemStart { ts, version } => EventView::SystemStart {
                ts: ts@,
                version: version@,
            },
            OmsEvent::SystemStop { ts, reason } => EventView::SystemStop {
                ts: ts@,
                reason: reason@,
            },
            OmsEvent::SignalReceived {
                ts,
                signal_id,
                symbol,
                strategy_type,
                needs_llm,
                zeta_context_preview,
            } => EventView::SignalReceived {
                ts: ts@,
                signal_id: signal_id@,
                symbol: symbol@,
                strategy_type: strategy_type@,
                needs_llm: *needs_llm,
                zeta_context_preview: zeta_context_preview@,
            },
            OmsEvent::DecisionMade {
                ts,
                signal_id,
                source,
                request_hash,
                approved,
                reasoning,
                confidence,
                sizing_adjustment,
            } => EventView::DecisionMade {
                ts: ts@,
                signal_id: signal_id@,
                source: source@,
                request_hash: request_hash@,
                approved: *approved,
                reasoning: reasoning@,
                confidence: *confidence,
                sizing_adjustment: *sizing_adjustment,
            },
            OmsEvent::ActionPlanned { ts, signal_id, action, detail } =>
                EventView::ActionPlanned {
                    ts: ts@,
                    signal_id: signal_id@,
                    action: action@,
                    detail: detail@,
                },
        }
    }
}

pub open spec fn event_views(events: Seq<OmsEvent>) -> Seq<EventView> {
    events.map_values(|e: OmsEvent| e@)
}

// ── Events of the present moment ────────────────────────────────────────────

pub fn ev_start() -> (r: OmsEvent)
    ensures
        r@ == (EventView::SystemStart { ts: r@.stamp(), version: VERSION@ }),
{
    OmsEvent::SystemStart { ts: utc_now_text(), version: VERSION.to_string() }
}

pub fn ev_stop(reason: &str) -> (r: OmsEvent)
    ensures
        r@ == (EventView::SystemStop { ts: r@.stamp(), reason: reason@ }),
{
    OmsEvent::SystemStop { ts: utc_now_text(), reason: reason.to_string() }
}

pub fn ev_submitted(order: Order) -> (r: OmsEvent)
    ensures
        r@ == (EventView::OrderSubmitted { ts: r@.stamp(), order: order@ }),
{
    OmsEvent::OrderSubmitted { ts: utc_now_text(), order }
}

pub fn ev_filled(order_id: &str, broker_id: &str, qty: u64, price: Double) -> (r: OmsEvent)
    ensures
        r@ == (EventView::OrderFilled {
            ts: r@.stamp(),
            order_id: order_id@,
            broker_id: broker_id@,
            fill_qty: qty,
            fill_price: price,
        }),
{
    OmsEvent::OrderFilled {
        ts: utc_now_text(),
        order_id: order_id.to_string(),
        broker_id: broker_id.to_string(),
        fill_qty: qty,
        fill_price: price,
    }
}

pub fn ev_cancelled(order_id: &str, reason: &str) -> (r: OmsEvent)
    ensures
        r@ == (EventView::OrderCancelled {
            ts: r@.stamp(),
            order_id: order_id@,
            reason: reason@,
        }),
{
    OmsEvent::OrderCancelled {
        ts: utc_now_text(),
        order_id: order_id.to_string(),
        reason: reason.to_string(),
    }
}

pub fn ev_signal_received(
    signal_id: &str,
    symbol: &str,
    strategy_type: &str,
    needs_llm: bool,
    zeta_context: &str,
) -> (r: OmsEvent)
    ensures
        r@ == (EventView::SignalReceived {
            ts: r@.stamp(),
            signal_id: signal_id@,
            symbol: symbol@,
            strategy_type: strategy_type@,
            needs_llm,
            zeta_context_preview: head(zeta_context@, PREVIEW as int),
        }),
{
    OmsEvent::SignalReceived {
        ts: utc_now_text(),
        signal_id: signal_id.to_string(),
        symbol: symbol.to_string(),
        strategy_type: strategy_type.to_string(),
        needs_llm,
        zeta_context_preview: text::head_text(zeta_context, PREVIEW),
    }
}

pub fn ev_decision_made(
    signal_id: &str,
    source: &str,
    request_hash: &str,
    approved: bool,
    reasoning: &str,
    confidence: Double,
    sizing_adjustment: Option<Double>,
) -> (r: OmsEvent)
    ensures
        r@ == (EventView::DecisionMade {
            ts: r@.stamp(),
            signal_id: signal_id@,
            source: source@,
            request_hash: request_hash@,
            approved,
            reasoning: reasoning@,
            confidence,
            sizing_adjustment,
        }),
{
    OmsEvent::DecisionMade {
        ts: utc_now_text(),
        signal_id: signal_id.to_string(),
        source: source.to_string(),
        request_hash: request_hash.to_string(),
        approved,
        reasoning: reasoning.to_string(),
        confidence,
        sizing_adjustment,
    }
}

pub fn ev_action_planned(signal_id: &str, action: &str, detail: &str) -> (r: OmsEvent)
    ensures
        r@ == (EventView::ActionPlanned {
            ts: r@.stamp(),
            signal_id: signal_id@,
            action: action@,
            detail: detail@,
        }),
{
    OmsEvent::ActionPlanned {
        ts: utc_now_text(),
        signal_id: signal_id.to_string(),
        action: action.to_string(),
        detail: detail.to_string(),
    }
}

// ── What the record tells ───────────────────────────────────────────────────

/// Orders and positions as the record leaves them.
#[derive(Debug)]
pub struct ReconstructedState {
    pub orders: Vec<Order>,
    pub open_orders: Vec<Order>,
    /// At most one for each symbol.
    pub positions: Vec<Position>,
    pub last_start: Option<String>,
    pub version: String,
}

/// What a reconstructed state says.
pub struct StateView {
    pub orders: Seq<OrderView>,
    pub open_orders: Seq<OrderView>,
    pub positions: Seq<PositionView>,
    pub last_start: Option<Seq<char>>,
    pub version: Seq<char>,
}

impl View for ReconstructedState {
    type V = StateView;

    open spec fn view(&self) -> StateView {
        StateView {
            orders: order_views(self.orders@),
            open_orders: order_views(self.open_orders@),
            positions: position_views(self.positions@),
            last_start: maybe(self.last_start),
            version: self.version@,
        }
    }
}

impl StateView {
    pub open spec fn start() -> StateView {
        StateView {
            orders: Seq::empty(),
            open_orders: Seq::empty(),
            positions: Seq::empty(),
            last_start: None,
            version: Seq::empty(),
        }
    }
}

impl Default for ReconstructedState {
    fn default() -> (r: ReconstructedState)
        ensures
            r@ == StateView::start(),
    {
        let r: ReconstructedState = ReconstructedState {
            orders: Vec::new(),
            open_orders: Vec::new(),
            positions: Vec::new(),
            last_start: None,
            version: String::new(),
        };
        assert(r@.orders =~= Seq::empty());
        assert(r@.open_orders =~= Seq::empty());
        assert(r@.positions =~= Seq::empty());
        r
    }
}

/// Whether `i` is the first order with the identifier that a text spells.
pub open spec fn first_with_id(orders: Seq<OrderView>, id: Seq<char>, i: int) -> bool {
    &&& 0 <= i < orders.len()
    &&& uuid_text(orders[i].id) == id
    &&& forall|j: int| 0 <= j < i ==> uuid_text(#[trigger] orders[j].id) != id
}

/// The orders after the first one with an identifier has been replaced; all of them if none has
/// it.
pub open spec fn with_order(
    orders: Seq<OrderView>,
    id: Seq<char>,
    change: spec_fn(OrderView) -> OrderView,
) -> Seq<OrderView> {
    if exists|i: int| first_with_id(orders, id, i) {
        let i = choose|i: int| first_with_id(orders, id, i);
        orders.update(i, change(orders[i]))
    } else {
        orders
    }
}

pub open spec fn filled(o: OrderView, broker_id: Seq<char>, qty: u64, price: Double) -> OrderView {
    OrderView {
        status: OrderStatus::Filled,
        filled_qty: qty,
        avg_fill_px: price,
        broker_id: Some(broker_id),
        ..o
    }
}

pub open spec fn with_status(o: OrderView, status: OrderStatus) -> OrderView {
    OrderView { status, ..o }
}

/// The positions after one has been updated: it replaces those of its symbol and comes last.
pub open spec fn with_position(ps: Seq<PositionView>, p: PositionView) -> Seq<PositionView> {
    ps.filter(|x: PositionView| x.symbol != p.symbol).push(p)
}

/// The state after one more event.
pub open spec fn applied(s: StateView, e: EventView) -> StateView {
    match e {
        EventView::OrderSubmitted { order, .. } => StateView { orders: s.orders.push(order), ..s },
        EventView::OrderFilled { order_id, broker_id, fill_qty, fill_price, .. } => StateView {
            orders: with_order(
                s.orders,
                order_id,
                |o: OrderView| filled(o, broker_id, fill_qty, fill_price),
            ),
            ..s
        },
        EventView::OrderCancelled { order_id, .. } => StateView {
            orders: with_order(
                s.orders,
                order_id,
                |o: OrderView| with_status(o, OrderStatus::Cancelled),
            ),
            ..s
        },
        EventView::OrderRejected { order_id, .. } => StateView {
            orders: with_order(
                s.orders,
                order_id,
                |o: OrderView| with_status(o, OrderStatus::Rejected),
            ),
            ..s
        },
        EventView::PositionUpdated { position, .. } => StateView {
            positions: with_position(s.positions, position),
            ..s
        },
        EventView::SystemStart { ts, version } => StateView {
            last_start: Some(ts),
            version,
            ..s
        },
        _ => s,
    }
}

/// The state after all events, from the first to the last.
pub open spec fn history(events: Seq<EventView>) -> StateView
    decreases events.len(),
{
    if events.len() == 0 {
        StateView::start()
    } else {
        applied(history(events.drop_last()), events.last())
    }
}

/// What the record tells: the history, with the orders that may still be filled.
pub open spec fn reconstructed(events: Seq<EventView>) -> StateView {
    let s = history(events);
    StateView { open_orders: open_only(s.orders), ..s }
}

/// The first order with the identifier that a text spells.
fn find_order(orders: &Vec<Order>, id: &str) -> (r: Option<usize>)
    ensures
        match r {
            Some(i) => first_with_id(order_views(orders@), id@, i as int),
            None => !exists|i: int| first_with_id(order_views(orders@), id@, i),
        },
{
    let mut i: usize = 0;
    let ghost all: Seq<OrderView> = order_views(orders@);
    while i < orders.len()
        invariant
            i <= orders.len(),
            all == order_views(orders@),
            forall|j: int| 0 <= j < i ==> uuid_text(#[trigger] all[j].id) != id@,
        decreases orders.len() - i,
    {
        let text: String = uuid_to_text(orders[i].id);
        if text::same(text.as_str(), id) {
            return Some(i);
        }
        i = i + 1;
    }
    None
}

proof fn lemma_with_order(
    orders: Seq<OrderView>,
    id: Seq<char>,
    change: spec_fn(OrderView) -> OrderView,
    i: int,
)
    requires
        first_with_id(orders, id, i),
    ensures
        with_order(orders, id, change) == orders.update(i, change(orders[i])),
{
    let k: int = choose|k: int| first_with_id(orders, id, k);
    if k < i {
        assert(uuid_text(orders[k].id) != id);
    }
    if i < k {
        assert(uuid_text(orders[i].id) != id);
    }
}

/// Sets the state of the first order with an identifier.
fn set_status(orders: &mut Vec<Order>, id: &str, status: OrderStatus)
    ensures
        order_views(final(orders)@) == with_order(
            order_views(old(orders)@),
            id@,
            |o: OrderView| with_status(o, status),
        ),
{
    let ghost before: Seq<OrderView> = order_views(orders@);
    match find_order(orders, id) {
        Some(i) => {
            proof {
                lemma_with_order(before, id@, |o: OrderView| with_status(o, status), i as int);
            }
            let mut o: Order = orders[i].clone();
            o.status = status;
            orders.set(i, o);
            assert(order_views(orders@) =~= before.update(
                i as int,
                with_status(before[i as int], status),
            ));
        },
        None => {},
    }
}

/// Records the fill of the first order with an identifier.
fn set_filled(orders: &mut Vec<Order>, id: &str, broker_id: &str, qty: u64, price: Double)
    ensures
        order_views(final(orders)@) == with_order(
            order_views(old(orders)@),
            id@,
            |o: OrderView| filled(o, broker_id@, qty, price),
        ),
{
    let ghost before: Seq<OrderView> = order_views(orders@);
    match find_order(orders, id) {
        Some(i) => {
            proof {
                lemma_with_order(
                    before,
                    id@,
                    |o: OrderView| filled(o, broker_id@, qty, price),
                    i as int,
                );
            }
            let mut o: Order = orders[i].clone();
            o.status = OrderStatus::Filled;
            o.filled_qty = qty;
            o.avg_fill_px = price;
            o.broker_id = Some(broker_id.to_string());
            orders.set(i, o);
            assert(order_views(orders@) =~= before.update(
                i as int,
                filled(before[i as int], broker_id@, qty, price),
            ));
        },
        None => {},
    }
}

/// Puts an updated position in the place of those of its symbol.
fn update_position(ps: &Vec<Position>, p: &Position) -> (r: Vec<Position>)
    ensures
        position_views(r@) == with_position(position_views(ps@), p@),
{
    let mut out: Vec<Position> = Vec::new();
    let mut i: usize = 0;
    let ghost all: Seq<PositionView> = position_views(ps@);
    let ghost keep = |x: PositionView| x.symbol != p@.symbol;
    proof {
        reveal(Seq::filter);
        assert(all.take(0).filter(keep) =~= position_views(out@));
    }
    while i < ps.len()
        invariant
            i <= ps.len(),
            all == position_views(ps@),
            keep == (|x: PositionView| x.symbol != p@.symbol),
            position_views(out@) == all.take(i as int).filter(keep),
        decreases ps.len() - i,
    {
        proof {
            reveal(Seq::filter);
            assert(all.take(i + 1).drop_last() == all.take(i as int));
        }
        let ghost before: Seq<Position> = out@;
        if ps[i].symbol != p.symbol {
            let q: Position = ps[i].clone();
            out.push(q);
            assert(position_views(out@) =~= position_views(before).push(q@));
        }
        i = i + 1;
    }
    assert(all.take(i as int) == all);
    let ghost before: Seq<Position> = out@;
    let q: Position = p.clone();
    out.push(q);
    assert(position_views(out@) =~= position_views(before).push(q@));
    out
}

/// Applies one event.
fn apply(state: &mut ReconstructedState, event: &OmsEvent)
    ensures
        final(state)@ == applied(old(state)@, event@),
{
    let ghost before: StateView = state@;
    match event {
        OmsEvent::OrderSubmitted { order, .. } => {
            let ghost orders: Seq<Order> = state.orders@;
            let o: Order = order.clone();
            state.orders.push(o);
            assert(order_views(state.orders@) =~= order_views(orders).push(o@));
        },
        OmsEvent::OrderFilled { order_id, broker_id, fill_qty, fill_price, .. } => {
            set_filled(
                &mut state.orders,
                order_id.as_str(),
                broker_id.as_str(),
                *fill_qty,
                *fill_price,
            );
        },
        OmsEvent::OrderCancelled { order_id, .. } => {
            set_status(&mut state.orders, order_id.as_str(), OrderStatus::Cancelled);
        },
        OmsEvent::OrderRejected { order_id, .. } => {
            set_status(&mut state.orders, order_id.as_str(), OrderStatus::Rejected);
        },
        OmsEvent::PositionUpdated { position, .. } => {
            state.positions = update_position(&state.positions, position);
        },
        OmsEvent::SystemStart { ts, version } => {
            state.last_start = Some(ts.clone());
            state.version = version.clone();
        },
        _ => {},
    }
}

impl OrderManagementSystem {
    /// Holds the orders of a list, from the first to the last.
    pub fn restore(&mut self, orders: &Vec<Order>)
        ensures
            final(self).orders_view() == restored(old(self).orders_view(), order_views(orders@)),
            final(self).positions_view() == old(self).positions_view(),
            old(self).well_formed() ==> final(self).well_formed(),
    {
        let mut i: usize = 0;
        let ghost all: Seq<OrderView> = order_views(orders@);
        while i < orders.len()
            invariant
                i <= orders.len(),
                all == order_views(orders@),
                self.orders_view() == restored(old(self).orders_view(), all.take(i as int)),
                self.positions_view() == old(self).positions_view(),
                old(self).well_formed() ==> self.well_formed(),
            decreases orders.len() - i,
        {
            self.submit(orders[i].clone());
            assert(all.take(i + 1).drop_last() == all.take(i as int));
            i = i + 1;
        }
        assert(all.take(i as int) == all);
    }
}

/// Orders by identifier, after those of a list have been added from the first to the last.
pub open spec fn restored(m: Map<u128, OrderView>, orders: Seq<OrderView>) -> Map<u128, OrderView>
    decreases orders.len(),
{
    if orders.len() == 0 {
        m
    } else {
        restored(m, orders.drop_last()).insert(orders.last().id, orders.last())
    }
}

// ── Lines ───────────────────────────────────────────────────────────────────

/// Where the record is kept.
pub struct EventLog {
    path: String,
}

/// The lines that hold more than white space, without the white space around them.
pub open spec fn lines_with_content(lines: Seq<Seq<char>>) -> Seq<Seq<char>>
    decreases lines.len(),
{
    if lines.len() == 0 {
        Seq::empty()
    } else {
        let front = lines_with_content(lines.drop_last());
        if trimmed(lines.last()).len() == 0 {
            front
        } else {
            front.push(trimmed(lines.last()))
        }
    }
}

/// The entries of a record: its lines without white space around them, blank ones left out.
pub open spec fn log_entries(content: Seq<char>) -> Seq<Seq<char>> {
    lines_with_content(pieces(content, '\n'))
}

/// The record after entries have been appended to an empty one, each as a line.
pub open spec fn log_content(entries: Seq<Seq<char>>) -> Seq<char>
    decreases entries.len(),
{
    if entries.len() == 0 {
        Seq::empty()
    } else {
        log_content(entries.drop_last()) + entries.last().push('\n')
    }
}

/// The events of those entries that could be read.
pub open spec fn readable(read: Seq<Option<OmsEvent>>) -> Seq<EventView>
    decreases read.len(),
{
    if read.len() == 0 {
        Seq::empty()
    } else {
        match read.last() {
            Some(e) => readable(read.drop_last()).push(e@),
            None => readable(read.drop_last()),
        }
    }
}

impl EventLog {
    pub closed spec fn place(self) -> Seq<char> {
        self.path@
    }

    pub fn new(path: String) -> (r: EventLog)
        ensures
            r.place() == path@,
    {
        EventLog { path }
    }

    pub fn path(&self) -> (r: &str)
        ensures
            r@ == self.place(),
    {
        self.path.as_str()
    }

    /// The line that is appended for an event, given the event as text.
    pub fn append(entry: &str) -> (r: String)
        ensures
            r@ == entry@.push('\n'),
    {
        let mut out: String = entry.to_string();
        out.push('\n');
        out
    }

    /// The entries of a record.
    pub fn entries(content: &str) -> (r: Vec<String>)
        ensures
            texts(r@) == log_entries(content@),
    {
        let lines: Vec<String> = text::split(content, '\n');
        let ghost all: Seq<Seq<char>> = texts(lines@);
        let mut out: Vec<String> = Vec::new();
        let mut i: usize = 0;
        assert(texts(out@) =~= Seq::empty());
        while i < lines.len()
            invariant
                i <= lines.len(),
                all == texts(lines@),
                texts(out@) == lines_with_content(all.take(i as int)),
            decreases lines.len() - i,
        {
            assert(all.take(i + 1).drop_last() == all.take(i as int));
            assert(all[i as int] == lines@[i as int]@);
            let ghost before: Seq<Seq<char>> = texts(out@);
            let line: String = text::trim(lines[i].as_str());
            if !line.as_str().is_empty() {
                let ghost l: Seq<char> = line@;
                out.push(line);
                assert(texts(out@) =~= before.push(l));
            }
            i = i + 1;
        }
        assert(all.take(i as int) == all);
        out
    }

    /// The events of a record, given for each entry the event that it was read as. An entry
    /// that could not be read is passed over.
    pub fn replay(read: Vec<Option<OmsEvent>>) -> (r: Vec<OmsEvent>)
        ensures
            event_views(r@) == readable(read@),
    {
        let mut out: Vec<OmsEvent> = Vec::new();
        let ghost all: Seq<Option<OmsEvent>> = read@;
        let ghost mut done: int = 0;
        assert(event_views(out@) =~= readable(all.take(0)));
        for item in it: read
            invariant
                it.seq() == all,
                done == it.index(),
                event_views(out@) == readable(all.take(done)),
        {
            let ghost before: Seq<EventView> = event_views(out@);
            assert(all.take(done + 1).drop_last() == all.take(done));
            assert(item == all[done]);
            match item {
                Some(e) => {
                    let ghost v: EventView = e@;
                    out.push(e);
                    assert(event_views(out@) =~= before.push(v));
                },
                None => {},
            }
            proof {
                done = done + 1;
            }
        }
        assert(all.take(done) == all);
        out
    }

    /// Rebuilds orders and positions from the events of a record.
    pub fn reconstruct(events: &Vec<OmsEvent>) -> (r: ReconstructedState)
        ensures
            r@ == reconstructed(event_views(events@)),
    {
        let mut state: ReconstructedState = ReconstructedState::default();
        let mut i: usize = 0;
        let ghost all: Seq<EventView> = event_views(events@);
        while i < events.len()
            invariant
                i <= events.len(),
                all == event_views(events@),
                state@ == history(all.take(i as int)),
            decreases events.len() - i,
        {
            apply(&mut state, &events[i]);
            assert(all.take(i + 1).drop_last() == all.take(i as int));
            i = i + 1;
        }
        assert(all.take(i as int) == all);
        state.open_orders = select_open(&state.orders);
        state
    }
}

} // verus!
