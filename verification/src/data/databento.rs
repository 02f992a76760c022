//! The Databento feed of futures.

use super::{
    side_of, FuturesMBP1Event, FuturesTradeEvent, MarketEvent, Side,
};
use crate::num::double::Double;
use crate::outside::{json_parse, json_parsed, json_refusal};
use crate::reply::{text_below, text_in, Unreadable};
use crate::text;
use crate::text::{joined, maybe, same, texts};
use std::collections::HashMap;
use vstd::prelude::*;

verus! {

pub const LIVE_URL: &'static str = "wss://live.databento.com/v0/live";

pub const DATASET: &'static str = "GLBX.MDP3";

/// Records of this kind hold the best bid and ask.
pub const RTYPE_MBP1: u8 = 1;

/// Records of this kind are trades.
pub const RTYPE_TRADE: u8 = 4;

pub struct DatabentoFeed {
    api_key: String,
}

#[derive(Debug)]
pub struct AuthMessage {
    pub auth: String,
    pub dataset: String,
}

#[derive(Debug)]
pub struct SubscribeMessage {
    pub action: String,
    pub schema: String,
    pub symbols: String,
    pub encoding: String,
}

/// What a subscription says: action, schema, symbols and encoding.
impl View for SubscribeMessage {
    type V = (Seq<char>, Seq<char>, Seq<char>, Seq<char>);

    open spec fn view(&self) -> (Seq<char>, Seq<char>, Seq<char>, Seq<char>) {
        (self.action@, self.schema@, self.symbols@, self.encoding@)
    }
}

/// A record, as far as it is read. Prices are in billionths.
#[derive(Debug)]
pub struct DBNRecord {
    pub header: DBNHeader,
    pub price: i64,
    pub size: u64,
    pub side: Option<String>,
    pub bid_px: i64,
    pub ask_px: i64,
    pub bid_sz: u32,
    pub ask_sz: u32,
    pub sequence: u64,
}

#[derive(Clone, Copy, Debug, PartialEq, Eq, Structural)]
pub struct DBNHeader {
    pub ts_event: i64,
    pub instrument_id: u64,
    pub rtype: u8,
}

/// The sizes at the best bid and ask of an instrument.
#[derive(Clone, Copy, Debug, PartialEq, Eq, Structural)]
pub struct BookState {
    pub bid_sz: u32,
    pub ask_sz: u32,
}

/// Why the feed cannot be used.
#[derive(Debug)]
pub enum FeedError {
    /// The reply to the login is not a JSON document.
    Unreadable(Unreadable),
    /// The login was not accepted; the reply is kept.
    AuthFailed { reply: String },
}

impl FeedError {
    pub open spec fn text(self) -> Seq<char> {
        match self {
            FeedError::Unreadable(e) => e.report@,
            FeedError::AuthFailed { reply } => "Databento auth failed: "@ + reply@,
        }
    }

    pub fn message(&self) -> (r: String)
        ensures
            r@ == self.text(),
    {
        match self {
            FeedError::Unreadable(e) => e.message(),
            FeedError::AuthFailed { reply } => {
                let mut out: String = "Databento auth failed: ".to_string();
                out.append(reply.as_str());
                out
            },
        }
    }
}

/// A price, from billionths.
pub open spec fn price_of(billionths: i64) -> Double {
    Double::whole(billionths as int).quotient(Double::whole(1_000_000_000))
}

fn price(billionths: i64) -> (r: Double)
    ensures
        r == price_of(billionths),
{
    Double::from_i64(billionths).over(Double::from_u64(1_000_000_000))
}

/// The side that a record gives with its first character; neither, if it gives none that is
/// known.
pub open spec fn record_side(side: Option<Seq<char>>) -> Side {
    match side {
        Some(s) => if s.len() > 0 && side_of(s[0]) is Ok {
            side_of(s[0])->Ok_0
        } else {
            Side::Neither
        },
        None => Side::Neither,
    }
}

fn side_in(side: &Option<String>) -> (r: Side)
    ensures
        r == record_side(maybe(*side)),
{
    match side {
        Some(s) => {
            if s.as_str().is_empty() {
                return Side::Neither;
            }
            match Side::try_from(s.as_str().get_char(0)) {
                Ok(side) => side,
                Err(_) => Side::Neither,
            }
        },
        None => Side::Neither,
    }
}

/// Order flow imbalance: growth of the bid size less growth of the ask size. There is none at
/// the first sight of an instrument.
pub open spec fn imbalance(before: Option<BookState>, now: BookState) -> int {
    match before {
        Some(prev) => (now.bid_sz - prev.bid_sz) - (now.ask_sz - prev.ask_sz),
        None => 0,
    }
}

/// What is known of an instrument.
pub open spec fn known(book: Map<u64, BookState>, id: u64) -> Option<BookState> {
    if book.contains_key(id) {
        Some(book[id])
    } else {
        None
    }
}

/// The sizes in a record.
pub open spec fn sizes(rec: DBNRecord) -> BookState {
    BookState { bid_sz: rec.bid_sz, ask_sz: rec.ask_sz }
}

/// Whether a record gives the best bid and ask of an instrument.
pub open spec fn is_tick(rec: DBNRecord, id: u64) -> bool {
    rec.header.rtype == RTYPE_MBP1 && rec.header.instrument_id == id
}

/// What is known of the instruments after a record.
pub open spec fn next_book(book: Map<u64, BookState>, rec: DBNRecord) -> Map<u64, BookState> {
    if rec.header.rtype == RTYPE_MBP1 {
        book.insert(rec.header.instrument_id, sizes(rec))
    } else {
        book
    }
}

/// The event that a record of a trade means.
pub open spec fn is_trade_of(rec: DBNRecord, t: FuturesTradeEvent) -> bool {
    &&& t.ts_ns == rec.header.ts_event
    &&& t.instrument_id == rec.header.instrument_id
    &&& t.raw_symbol@ == Seq::<char>::empty()
    &&& t.price == price_of(rec.price)
    &&& t.size == rec.size
    &&& t.side == record_side(maybe(rec.side))
    &&& t.sequence == rec.sequence
}

/// The event that a record of the best bid and ask means.
pub open spec fn top_of_book(rec: DBNRecord, before: Option<BookState>) -> FuturesMBP1Event {
    FuturesMBP1Event {
        ts_ns: rec.header.ts_event,
        instrument_id: rec.header.instrument_id,
        bid_px: price_of(rec.bid_px),
        ask_px: price_of(rec.ask_px),
        bid_sz: rec.bid_sz,
        ask_sz: rec.ask_sz,
        ofi: imbalance(before, sizes(rec)) as i64,
        sequence: rec.sequence,
    }
}

/// The two schemas that are subscribed to.
pub open spec fn subscription(schema: Seq<char>, symbols: Seq<Seq<char>>) -> (
    Seq<char>,
    Seq<char>,
    Seq<char>,
    Seq<char>,
) {
    ("subscribe"@, schema, joined(symbols, ","@), "json"@)
}

impl DatabentoFeed {
    pub closed spec fn key(self) -> Seq<char> {
        self.api_key@
    }

    pub fn new(api_key: String) -> (r: DatabentoFeed)
        ensures
            r.key() == api_key@,
    {
        DatabentoFeed { api_key }
    }

    /// What to send first.
    pub fn auth_message(&self) -> (r: AuthMessage)
        ensures
            r.auth@ == self.key(),
            r.dataset@ == DATASET@,
    {
        AuthMessage { auth: self.api_key.clone(), dataset: DATASET.to_string() }
    }

    /// Whether a login was accepted, given the kind of the reply.
    pub fn auth_kind_accepted(kind: Option<String>) -> (r: bool)
        ensures
            r == (maybe(kind) == Some("auth_response"@)),
    {
        match kind {
            Some(kind) => same(kind.as_str(), "auth_response"),
            None => false,
        }
    }

    /// Whether a login was accepted. Only a reply that is a text can refuse it.
    pub fn check_auth(reply: Option<String>) -> (r: Result<(), FeedError>)
        ensures
            match reply {
                Some(text) => match json_parsed(text@) {
                    Some(nodes) => if text_below(nodes, "type"@) == Some("auth_response"@) {
                        r is Ok
                    } else {
                        r matches Err(FeedError::AuthFailed { reply: kept }) && kept@ == text@
                    },
                    None => r matches Err(FeedError::Unreadable(e)) && e.report@ == json_refusal(
                        text@,
                    ),
                },
                None => r is Ok,
            },
    {
        match reply {
            Some(text) => match json_parse(text.as_str()) {
                Ok(v) => {
                    if DatabentoFeed::auth_kind_accepted(text_in(&v, "type")) {
                        Ok(())
                    } else {
                        Err(FeedError::AuthFailed { reply: text })
                    }
                },
                Err(report) => Err(FeedError::Unreadable(Unreadable { report })),
            },
            None => Ok(()),
        }
    }

    /// What to send to subscribe: best bid and ask, and trades, of all symbols.
    pub fn stream_futures(symbols: &Vec<String>) -> (r: (SubscribeMessage, SubscribeMessage))
        ensures
            r.0@ == subscription("mbp-1"@, texts(symbols@)),
            r.1@ == subscription("trades"@, texts(symbols@)),
    {
        (
            DatabentoFeed::subscribe("mbp-1", symbols),
            DatabentoFeed::subscribe("trades", symbols),
        )
    }

    fn subscribe(schema: &str, symbols: &Vec<String>) -> (r: SubscribeMessage)
        ensures
            r@ == subscription(schema@, texts(symbols@)),
    {
        SubscribeMessage {
            action: "subscribe".to_string(),
            schema: schema.to_string(),
            symbols: text::join(symbols, ","),
            encoding: "json".to_string(),
        }
    }

    /// The event that a record means, if it is of a kind that is read. What is known of the
    /// sizes of each instrument is kept up to date.
    pub fn parse_record(rec: &DBNRecord, book: &mut HashMap<u64, BookState>) -> (r: Option<
        MarketEvent,
    >)
        ensures
            if rec.header.rtype == RTYPE_TRADE {
                r matches Some(MarketEvent::FuturesTrade(t)) && is_trade_of(*rec, t)
            } else if rec.header.rtype == RTYPE_MBP1 {
                r == Some(
                    MarketEvent::FuturesMBP1(
                        top_of_book(*rec, known(old(book)@, rec.header.instrument_id)),
                    ),
                )
            } else {
                r is None
            },
            final(book)@ == next_book(old(book)@, *rec),
    {
        broadcast use vstd::std_specs::hash::group_hash_axioms;

        let hd: DBNHeader = rec.header;
        if hd.rtype == RTYPE_TRADE {
            let raw_symbol: String = String::new();
            assert(raw_symbol@ =~= Seq::empty());
            return Some(
                MarketEvent::FuturesTrade(
                    FuturesTradeEvent {
                        ts_ns: hd.ts_event,
                        instrument_id: hd.instrument_id,
                        raw_symbol,
                        price: price(rec.price),
                        size: rec.size,
                        side: side_in(&rec.side),
                        sequence: rec.sequence,
                    },
                ),
            );
        }
        if hd.rtype != RTYPE_MBP1 {
            return None;
        }
        let ofi: i64 = match book.get(&hd.instrument_id) {
            Some(prev) => {
                (rec.bid_sz as i64 - prev.bid_sz as i64) - (rec.ask_sz as i64 - prev.ask_sz as i64)
            },
            None => 0,
        };
        book.insert(hd.instrument_id, BookState { bid_sz: rec.bid_sz, ask_sz: rec.ask_sz });
        Some(
            MarketEvent::FuturesMBP1(
                FuturesMBP1Event {
                    ts_ns: hd.ts_event,
                    instrument_id: hd.instrument_id,
                    bid_px: price(rec.bid_px),
                    ask_px: price(rec.ask_px),
                    bid_sz: rec.bid_sz,
                    ask_sz: rec.ask_sz,
                    ofi,
                    sequence: rec.sequence,
                },
            ),
        )
    }
}

/// The imbalances of one instrument over a row of states, each reckoned from the one before.
pub open spec fn total_imbalance(states: Seq<BookState>) -> int
    decreases states.len(),
{
    if states.len() == 0 {
        0
    } else if states.len() == 1 {
        imbalance(None, states[0])
    } else {
        total_imbalance(states.drop_last()) + imbalance(
            Some(states[states.len() - 2]),
            states.last(),
        )
    }
}

/// Imbalances add up to the change of the sizes from the first state to the last.
pub proof fn law_imbalances_add_up(states: Seq<BookState>)
    requires
        states.len() > 0,
    ensures
        total_imbalance(states) == (states.last().bid_sz - states[0].bid_sz) - (
        states.last().ask_sz - states[0].ask_sz),
    decreases states.len(),
{
    if states.len() > 1 {
        law_imbalances_add_up(states.drop_last());
    }
}

/// What is known of the instruments after records have been read from the first to the last.
pub open spec fn book_after(book: Map<u64, BookState>, recs: Seq<DBNRecord>) -> Map<u64, BookState>
    decreases recs.len(),
{
    if recs.len() == 0 {
        book
    } else {
        next_book(book_after(book, recs.drop_last()), recs.last())
    }
}

/// The records that give the best bid and ask of an instrument.
pub open spec fn ticks(recs: Seq<DBNRecord>, id: u64) -> Seq<DBNRecord> {
    recs.filter(|rec: DBNRecord| is_tick(rec, id))
}

/// The imbalances in the events of an instrument, added up, when records are read from the first
/// to the last.
pub open spec fn reported_imbalance(
    book: Map<u64, BookState>,
    recs: Seq<DBNRecord>,
    id: u64,
) -> int
    decreases recs.len(),
{
    if recs.len() == 0 {
        0
    } else {
        let before = book_after(book, recs.drop_last());
        reported_imbalance(book, recs.drop_last(), id) + if is_tick(recs.last(), id) {
            top_of_book(recs.last(), known(before, id)).ofi as int
        } else {
            0
        }
    }
}

proof fn lemma_ticks(book: Map<u64, BookState>, recs: Seq<DBNRecord>, id: u64)
    requires
        !book.contains_key(id),
    ensures
        ({
            let states = ticks(recs, id).map_values(|rec: DBNRecord| sizes(rec));
            &&& known(book_after(book, recs), id) == if states.len() == 0 {
                None
            } else {
                Some(states.last())
            }
            &&& reported_imbalance(book, recs, id) == total_imbalance(states)
        }),
    decreases recs.len(),
{
    reveal(Seq::filter);
    if recs.len() > 0 {
        let front: Seq<DBNRecord> = recs.drop_last();
        lemma_ticks(book, front, id);
        if is_tick(recs.last(), id) {
            let before: Seq<BookState> = ticks(front, id).map_values(|rec: DBNRecord| sizes(rec));
            let states: Seq<BookState> = ticks(recs, id).map_values(|rec: DBNRecord| sizes(rec));
            assert(ticks(recs, id) == ticks(front, id).push(recs.last()));
            assert(states =~= before.push(sizes(recs.last())));
            assert(states.drop_last() =~= before);
        }
    }
}

/// When records are read one after the other into a book that has no entry for an instrument, the
/// first event of the instrument has no imbalance, and the imbalances of its events add up to
/// the change of its sizes from its first record to its last, whatever other records are read
/// in between.
pub proof fn law_reported_imbalances_add_up(
    book: Map<u64, BookState>,
    recs: Seq<DBNRecord>,
    id: u64,
)
    requires
        !book.contains_key(id),
    ensures
        ({
            let own = ticks(recs, id);
            &&& own.len() > 0 ==> reported_imbalance(book, recs, id) == (own.last().bid_sz
                - own[0].bid_sz) - (own.last().ask_sz - own[0].ask_sz)
            &&& own.len() == 0 ==> forall|rec: DBNRecord|
                is_tick(rec, id) ==> (#[trigger] top_of_book(
                    rec,
                    known(book_after(book, recs), id),
                )).ofi == 0
        }),
{
    let own: Seq<DBNRecord> = ticks(recs, id);
    let states: Seq<BookState> = own.map_values(|rec: DBNRecord| sizes(rec));
    lemma_ticks(book, recs, id);
    if own.len() > 0 {
        law_imbalances_add_up(states);
        assert(states.last() == sizes(own.last()));
        assert(states[0] == sizes(own[0]));
    }
}

} // verus!
