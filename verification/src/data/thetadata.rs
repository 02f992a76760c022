//! The ThetaData feed of option quotes.

use super::{OptionQuoteEvent, OptionRight};
use crate::num::double::{or_zero, value_or_zero, Double};
use crate::outside::{
    json_get, json_item, json_nodes, json_parse, json_parsed, json_refusal, utc_now, JsonNodes,
    JsonStep, Timestamp,
};
use crate::reply::{
    below, count_at, count_below, count_in, listed_count, listed_number, listed_text, number_at,
    number_below, number_in, text_at, text_below, text_in, Unreadable,
};
use crate::text::{maybe, same};
use vstd::prelude::*;

verus! {

pub const STREAM_URL: &'static str = "wss://stream.thetadata.us/v2/stream";

pub struct ThetaDataFeed {
    api_key: String,
}

/// The values of a quote, as far as the message has them.
#[derive(Debug)]
pub struct QuoteData {
    pub root: Option<String>,
    pub exp: Option<String>,
    pub right: Option<String>,
    /// In thousandths of a dollar.
    pub strike: Option<Double>,
    pub bid: Option<Double>,
    pub ask: Option<Double>,
    pub bid_size: Option<u64>,
    pub ask_size: Option<u64>,
    pub underlying_price: Option<Double>,
    pub implied_vol: Option<Double>,
    pub delta: Option<Double>,
    pub theta: Option<Double>,
    pub vega: Option<Double>,
    pub rho: Option<Double>,
    pub gamma: Option<Double>,
    pub vanna: Option<Double>,
    pub charm: Option<Double>,
    pub vomma: Option<Double>,
    pub veta: Option<Double>,
}

/// What the values of a quote are.
pub struct QuoteDataView {
    pub root: Option<Seq<char>>,
    pub exp: Option<Seq<char>>,
    pub right: Option<Seq<char>>,
    pub strike: Option<Double>,
    pub bid: Option<Double>,
    pub ask: Option<Double>,
    pub bid_size: Option<u64>,
    pub ask_size: Option<u64>,
    pub underlying_price: Option<Double>,
    pub implied_vol: Option<Double>,
    pub delta: Option<Double>,
    pub theta: Option<Double>,
    pub vega: Option<Double>,
    pub rho: Option<Double>,
    pub gamma: Option<Double>,
    pub vanna: Option<Double>,
    pub charm: Option<Double>,
    pub vomma: Option<Double>,
    pub veta: Option<Double>,
}

impl View for QuoteData {
    type V = QuoteDataView;

    open spec fn view(&self) -> QuoteDataView {
        QuoteDataView {
            root: maybe(self.root),
            exp: maybe(self.exp),
            right: maybe(self.right),
            strike: self.strike,
            bid: self.bid,
            ask: self.ask,
            bid_size: self.bid_size,
            ask_size: self.ask_size,
            underlying_price: self.underlying_price,
            implied_vol: self.implied_vol,
            delta: self.delta,
            theta: self.theta,
            vega: self.vega,
            rho: self.rho,
            gamma: self.gamma,
            vanna: self.vanna,
            charm: self.charm,
            vomma: self.vomma,
            veta: self.veta,
        }
    }
}

/// A text, or an empty one.
pub open spec fn or_empty(s: Option<Seq<char>>) -> Seq<char> {
    match s {
        Some(t) => t,
        None => Seq::empty(),
    }
}

/// The low 32 bits of a count, or zero.
pub open spec fn low_bits(n: Option<u64>) -> int {
    match n {
        Some(v) => v as int % 0x1_0000_0000,
        None => 0,
    }
}

/// The right that a message gives as one letter.
pub open spec fn right_of(letter: Option<Seq<char>>) -> Option<OptionRight> {
    if or_empty(letter) == "C"@ {
        Some(OptionRight::Call)
    } else if or_empty(letter) == "P"@ {
        Some(OptionRight::Put)
    } else {
        None
    }
}

/// Whether messages of a kind are quotes.
pub open spec fn is_quote_kind(kind: Option<Seq<char>>) -> bool {
    or_empty(kind) == "QUOTE_GREEKS"@ || or_empty(kind) == "TRADE_GREEKS"@
}

/// Whether an event holds the values of a quote: strikes in dollars, vega and rho per percent,
/// and zero or nothing for what the message does not have.
pub open spec fn holds(e: OptionQuoteEvent, d: QuoteDataView) -> bool {
    &&& e.root@ == or_empty(d.root)
    &&& e.expiration@ == or_empty(d.exp)
    &&& right_of(d.right) == Some(e.right)
    &&& e.strike == or_zero(d.strike).quotient(Double::whole(1000))
    &&& e.bid == or_zero(d.bid)
    &&& e.ask == or_zero(d.ask)
    &&& e.bid_size == low_bits(d.bid_size)
    &&& e.ask_size == low_bits(d.ask_size)
    &&& e.underlying_price == or_zero(d.underlying_price)
    &&& e.implied_vol == or_zero(d.implied_vol)
    &&& e.delta == or_zero(d.delta)
    &&& e.theta == or_zero(d.theta)
    &&& e.vega == or_zero(d.vega).quotient(Double::whole(100))
    &&& e.rho == or_zero(d.rho).quotient(Double::whole(100))
    &&& e.gamma == or_zero(d.gamma)
    &&& e.vanna == or_zero(d.vanna)
    &&& e.charm == or_zero(d.charm)
    &&& e.vomma == or_zero(d.vomma)
    &&& e.veta == or_zero(d.veta)
}

/// Whether an event is what a message means: nothing, unless it is a quote with data and a
/// right.
pub open spec fn means(
    kind: Option<Seq<char>>,
    data: Option<QuoteDataView>,
    event: Option<OptionQuoteEvent>,
) -> bool {
    if is_quote_kind(kind) && data is Some && right_of(data->0.right) is Some {
        event is Some && holds(event->0, data->0)
    } else {
        event is None
    }
}

/// The values of a quote in an object.
pub open spec fn data_in(d: JsonNodes) -> QuoteDataView {
    QuoteDataView {
        root: text_below(d, "root"@),
        exp: text_below(d, "exp"@),
        right: text_below(d, "right"@),
        strike: number_below(d, "strike"@),
        bid: number_below(d, "bid"@),
        ask: number_below(d, "ask"@),
        bid_size: count_below(d, "bid_size"@),
        ask_size: count_below(d, "ask_size"@),
        underlying_price: number_below(d, "underlying_price"@),
        implied_vol: number_below(d, "implied_vol"@),
        delta: number_below(d, "delta"@),
        theta: number_below(d, "theta"@),
        vega: number_below(d, "vega"@),
        rho: number_below(d, "rho"@),
        gamma: number_below(d, "gamma"@),
        vanna: number_below(d, "vanna"@),
        charm: number_below(d, "charm"@),
        vomma: number_below(d, "vomma"@),
        veta: number_below(d, "veta"@),
    }
}

/// The values of a quote in a list. Each has its place: time of day, bid, ask, bid size, ask
/// size, gamma, vanna, charm, vomma, veta, implied volatility and its error, time of day of the
/// underlying, price of the underlying, date, root, expiration, strike, right. The sensitivities
/// of first order have none.
pub open spec fn data_at(d: JsonNodes) -> QuoteDataView {
    QuoteDataView {
        root: text_at(d, 15),
        exp: text_at(d, 16),
        right: text_at(d, 18),
        strike: number_at(d, 17),
        bid: number_at(d, 1),
        ask: number_at(d, 2),
        bid_size: count_at(d, 3),
        ask_size: count_at(d, 4),
        underlying_price: number_at(d, 13),
        implied_vol: number_at(d, 10),
        delta: None,
        theta: None,
        vega: None,
        rho: None,
        gamma: number_at(d, 5),
        vanna: number_at(d, 6),
        charm: number_at(d, 7),
        vomma: number_at(d, 8),
        veta: number_at(d, 9),
    }
}

/// The values of a quote in a list, or else in an object.
pub open spec fn quote_data(d: JsonNodes) -> QuoteDataView {
    if d.contains_key(seq![JsonStep::Item(0)]) {
        data_at(d)
    } else {
        data_in(d)
    }
}

/// The data of a message, if it has any.
pub open spec fn message_data(nodes: JsonNodes) -> Option<QuoteDataView> {
    if nodes.contains_key(seq![JsonStep::Key("data"@)]) {
        Some(quote_data(below(nodes, "data"@)))
    } else {
        None
    }
}

fn text_or_empty(s: Option<String>) -> (r: String)
    ensures
        r@ == or_empty(maybe(s)),
{
    match s {
        Some(t) => t,
        None => {
            let empty: String = String::new();
            assert(empty@ =~= Seq::empty());
            empty
        },
    }
}

fn low_bits_of(n: Option<u64>) -> (r: u32)
    ensures
        r == low_bits(n),
{
    match n {
        Some(v) => (v % 0x1_0000_0000) as u32,
        None => 0,
    }
}

fn read_list(d: &serde_json::Value) -> (r: QuoteData)
    ensures
        r@ == data_at(json_nodes(*d)),
{
    QuoteData {
        root: listed_text(d, 15),
        exp: listed_text(d, 16),
        right: listed_text(d, 18),
        strike: listed_number(d, 17),
        bid: listed_number(d, 1),
        ask: listed_number(d, 2),
        bid_size: listed_count(d, 3),
        ask_size: listed_count(d, 4),
        underlying_price: listed_number(d, 13),
        implied_vol: listed_number(d, 10),
        delta: None,
        theta: None,
        vega: None,
        rho: None,
        gamma: listed_number(d, 5),
        vanna: listed_number(d, 6),
        charm: listed_number(d, 7),
        vomma: listed_number(d, 8),
        veta: listed_number(d, 9),
    }
}

fn read_object(d: &serde_json::Value) -> (r: QuoteData)
    ensures
        r@ == data_in(json_nodes(*d)),
{
    QuoteData {
        root: text_in(d, "root"),
        exp: text_in(d, "exp"),
        right: text_in(d, "right"),
        strike: number_in(d, "strike"),
        bid: number_in(d, "bid"),
        ask: number_in(d, "ask"),
        bid_size: count_in(d, "bid_size"),
        ask_size: count_in(d, "ask_size"),
        underlying_price: number_in(d, "underlying_price"),
        implied_vol: number_in(d, "implied_vol"),
        delta: number_in(d, "delta"),
        theta: number_in(d, "theta"),
        vega: number_in(d, "vega"),
        rho: number_in(d, "rho"),
        gamma: number_in(d, "gamma"),
        vanna: number_in(d, "vanna"),
        charm: number_in(d, "charm"),
        vomma: number_in(d, "vomma"),
        veta: number_in(d, "veta"),
    }
}

impl ThetaDataFeed {
    pub closed spec fn key(self) -> Seq<char> {
        self.api_key@
    }

    pub fn new(api_key: String) -> (r: ThetaDataFeed)
        ensures
            r.key() == api_key@,
    {
        ThetaDataFeed { api_key }
    }

    /// Where to connect.
    pub fn stream_options(&self) -> (r: String)
        ensures
            r@ == STREAM_URL@ + "?token="@ + self.key(),
    {
        let mut out: String = STREAM_URL.to_string();
        out.append("?token=");
        out.append(self.api_key.as_str());
        out
    }

    /// The event that a message means, given its kind and its data.
    pub fn quote_event(kind: Option<String>, data: Option<QuoteData>, ts: Timestamp) -> (r: Option<
        OptionQuoteEvent,
    >)
        ensures
            means(
                maybe(kind),
                match data {
                    Some(d) => Some(d@),
                    None => None,
                },
                r,
            ),
            r is Some ==> r->0.ts == ts,
    {
        let kind: String = text_or_empty(kind);
        if !same(kind.as_str(), "QUOTE_GREEKS") && !same(kind.as_str(), "TRADE_GREEKS") {
            return None;
        }
        let d: QuoteData = match data {
            Some(d) => d,
            None => {
                return None;
            },
        };
        let letter: String = text_or_empty(d.right);
        let right: OptionRight = if same(letter.as_str(), "C") {
            OptionRight::Call
        } else if same(letter.as_str(), "P") {
            OptionRight::Put
        } else {
            return None;
        };
        Some(
            OptionQuoteEvent {
                ts,
                root: text_or_empty(d.root),
                expiration: text_or_empty(d.exp),
                strike: value_or_zero(d.strike).over(Double::from_u64(1000)),
                right,
                bid: value_or_zero(d.bid),
                ask: value_or_zero(d.ask),
                bid_size: low_bits_of(d.bid_size),
                ask_size: low_bits_of(d.ask_size),
                underlying_price: value_or_zero(d.underlying_price),
                implied_vol: value_or_zero(d.implied_vol),
                delta: value_or_zero(d.delta),
                theta: value_or_zero(d.theta),
                vega: value_or_zero(d.vega).over(Double::from_u64(100)),
                rho: value_or_zero(d.rho).over(Double::from_u64(100)),
                gamma: value_or_zero(d.gamma),
                vanna: value_or_zero(d.vanna),
                charm: value_or_zero(d.charm),
                vomma: value_or_zero(d.vomma),
                veta: value_or_zero(d.veta),
            },
        )
    }

    /// Reads a message. Heartbeats and the like mean nothing.
    pub fn parse_quote_greeks(text: &str) -> (r: Result<Option<OptionQuoteEvent>, Unreadable>)
        ensures
            match json_parsed(text@) {
                Some(nodes) => r matches Ok(event) && means(
                    text_below(nodes, "type"@),
                    message_data(nodes),
                    event,
                ),
                None => r matches Err(e) && e.report@ == json_refusal(text@),
            },
    {
        let v: serde_json::Value = match json_parse(text) {
            Ok(v) => v,
            Err(report) => {
                return Err(Unreadable { report });
            },
        };
        let kind: Option<String> = text_in(&v, "type");
        let data: Option<QuoteData> = match json_get(&v, "data") {
            Some(d) => Some(
                if json_item(d, 0).is_some() {
                    read_list(d)
                } else {
                    read_object(d)
                },
            ),
            None => None,
        };
        Ok(ThetaDataFeed::quote_event(kind, data, utc_now()))
    }
}

} // verus!
