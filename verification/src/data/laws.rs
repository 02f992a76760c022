//! What the messages of the feeds mean.

use super::databento::{
    is_trade_of, known, next_book, price_of, subscription, top_of_book, BookState, DBNRecord,
    FeedError,
};
use super::thetadata::{data_at, data_in, holds, means, message_data, or_empty, QuoteDataView};
use super::{
    action_of, side_of, CodeError, FuturesTradeEvent, MBOAction, OptionQuoteEvent, OptionRight, Side,
};
use crate::num::double::Double;
use crate::num::laws::{law_whole_numbers_are_exact, lemma_whole_is_whole, lemma_whole_quotient};
use crate::outside::{leaf_count, leaf_number, leaf_text, JsonNodes, JsonStep};
use crate::reply::below;
use crate::text::pieces;
use crate::text_laws::law_split_undoes_join;
use vstd::prelude::*;
use vstd::std_specs::convert::TryFromSpec;

verus! {

// ── Option quotes ───────────────────────────────────────────────────────────

/// A value that a message has, or zero.
pub open spec fn given(x: Option<Double>) -> Double {
    match x {
        Some(v) => v,
        None => Double::of(false, 0),
    }
}

/// A quote has the values of its message, each in its own place: the strike divided by a thousand,
/// vega and rho divided by a hundred, sizes as they are up to multiples of the 32nd power of two,
/// and zero or an empty text for what is missing.
pub proof fn law_quotes_have_the_values_of_their_message(e: OptionQuoteEvent, d: QuoteDataView)
    requires
        holds(e, d),
    ensures
        d.root matches Some(t) ==> e.root@ == t,
        d.root is None ==> e.root@.len() == 0,
        d.exp matches Some(t) ==> e.expiration@ == t,
        d.exp is None ==> e.expiration@.len() == 0,
        d.right == Some("C"@) ==> e.right == OptionRight::Call,
        d.right == Some("P"@) ==> e.right == OptionRight::Put,
        e.strike == given(d.strike).quotient(Double::whole(1000)),
        e.bid == given(d.bid),
        e.ask == given(d.ask),
        d.bid_size matches Some(n) ==> (n - e.bid_size) % 0x1_0000_0000 == 0,
        d.bid_size is None ==> e.bid_size == 0,
        d.ask_size matches Some(n) ==> (n - e.ask_size) % 0x1_0000_0000 == 0,
        d.ask_size is None ==> e.ask_size == 0,
        e.underlying_price == given(d.underlying_price),
        e.implied_vol == given(d.implied_vol),
        e.delta == given(d.delta),
        e.theta == given(d.theta),
        e.vega == given(d.vega).quotient(Double::whole(100)),
        e.rho == given(d.rho).quotient(Double::whole(100)),
        e.gamma == given(d.gamma),
        e.vanna == given(d.vanna),
        e.charm == given(d.charm),
        e.vomma == given(d.vomma),
        e.veta == given(d.veta),
{
    reveal_strlit("C");
    reveal_strlit("P");
    assert("C"@[0] == 'C' && "P"@[0] == 'P');
}

/// A strike that comes as a whole number of thousands is that many dollars, and a vega or a rho
/// that comes as a whole number of hundreds is that many.
pub proof fn law_quotes_are_in_dollars(e: OptionQuoteEvent, d: QuoteDataView, n: int)
    requires
        holds(e, d),
        -1_000_000_000 <= n <= 1_000_000_000,
    ensures
        d.strike == Some(Double::whole(1000 * n)) ==> e.strike == Double::whole(n),
        d.vega == Some(Double::whole(100 * n)) ==> e.vega == Double::whole(n),
        d.rho == Some(Double::whole(100 * n)) ==> e.rho == Double::whole(n),
{
    lemma_whole_is_whole(n * 1000);
    lemma_whole_is_whole(n * 100);
    lemma_whole_is_whole(1000);
    lemma_whole_is_whole(100);
    law_whole_numbers_are_exact(n * 1000);
    law_whole_numbers_are_exact(n * 100);
    law_whole_numbers_are_exact(1000);
    law_whole_numbers_are_exact(100);
    lemma_whole_quotient(Double::whole(n * 1000), Double::whole(1000), n, 1000);
    lemma_whole_quotient(Double::whole(n * 100), Double::whole(100), n, 100);
}

/// A message means a quote if and only if it is of one of the two kinds with Greeks, has data, and
/// the data say whether it is a call or a put.
pub proof fn law_messages_that_mean_a_quote(
    kind: Option<Seq<char>>,
    data: Option<QuoteDataView>,
    event: Option<OptionQuoteEvent>,
)
    requires
        means(kind, data, event),
    ensures
        event is Some <==> {
            &&& kind == Some("QUOTE_GREEKS"@) || kind == Some("TRADE_GREEKS"@)
            &&& data matches Some(d) && (d.right == Some("C"@) || d.right == Some("P"@))
        },
        event matches Some(e) ==> data matches Some(d) && holds(e, d),
{
    reveal_strlit("QUOTE_GREEKS");
    reveal_strlit("TRADE_GREEKS");
    reveal_strlit("C");
    reveal_strlit("P");
    assert("QUOTE_GREEKS"@.len() == 12 && "TRADE_GREEKS"@.len() == 12);
    assert("C"@.len() == 1 && "P"@.len() == 1);
    assert(kind is None ==> or_empty(kind).len() == 0);
    if let Some(d) = data {
        assert(d.right is None ==> or_empty(d.right).len() == 0);
    }
}

/// The number behind a step, as a document has it.
pub open spec fn number_there(d: JsonNodes, step: JsonStep) -> Option<Double> {
    match leaf_number(d, seq![step]) {
        Some(bits) => Some(Double { bits }),
        None => None,
    }
}

/// An object has each value of a quote under its name.
pub proof fn law_named_values_of_a_quote(d: JsonNodes)
    ensures
        data_in(d).root == leaf_text(d, seq![JsonStep::Key("root"@)]),
        data_in(d).exp == leaf_text(d, seq![JsonStep::Key("exp"@)]),
        data_in(d).right == leaf_text(d, seq![JsonStep::Key("right"@)]),
        data_in(d).strike == number_there(d, JsonStep::Key("strike"@)),
        data_in(d).bid == number_there(d, JsonStep::Key("bid"@)),
        data_in(d).ask == number_there(d, JsonStep::Key("ask"@)),
        data_in(d).bid_size == leaf_count(d, seq![JsonStep::Key("bid_size"@)]),
        data_in(d).ask_size == leaf_count(d, seq![JsonStep::Key("ask_size"@)]),
        data_in(d).underlying_price == number_there(d, JsonStep::Key("underlying_price"@)),
        data_in(d).implied_vol == number_there(d, JsonStep::Key("implied_vol"@)),
        data_in(d).delta == number_there(d, JsonStep::Key("delta"@)),
        data_in(d).theta == number_there(d, JsonStep::Key("theta"@)),
        data_in(d).vega == number_there(d, JsonStep::Key("vega"@)),
        data_in(d).rho == number_there(d, JsonStep::Key("rho"@)),
        data_in(d).gamma == number_there(d, JsonStep::Key("gamma"@)),
        data_in(d).vanna == number_there(d, JsonStep::Key("vanna"@)),
        data_in(d).charm == number_there(d, JsonStep::Key("charm"@)),
        data_in(d).vomma == number_there(d, JsonStep::Key("vomma"@)),
        data_in(d).veta == number_there(d, JsonStep::Key("veta"@)),
{
}

/// A list has each value of a quote at its place, counted from zero, and no delta, theta, vega or
/// rho.
pub proof fn law_listed_values_of_a_quote(d: JsonNodes)
    ensures
        data_at(d).bid == number_there(d, JsonStep::Item(1)),
        data_at(d).ask == number_there(d, JsonStep::Item(2)),
        data_at(d).bid_size == leaf_count(d, seq![JsonStep::Item(3)]),
        data_at(d).ask_size == leaf_count(d, seq![JsonStep::Item(4)]),
        data_at(d).gamma == number_there(d, JsonStep::Item(5)),
        data_at(d).vanna == number_there(d, JsonStep::Item(6)),
        data_at(d).charm == number_there(d, JsonStep::Item(7)),
        data_at(d).vomma == number_there(d, JsonStep::Item(8)),
        data_at(d).veta == number_there(d, JsonStep::Item(9)),
        data_at(d).implied_vol == number_there(d, JsonStep::Item(10)),
        data_at(d).underlying_price == number_there(d, JsonStep::Item(13)),
        data_at(d).root == leaf_text(d, seq![JsonStep::Item(15)]),
        data_at(d).exp == leaf_text(d, seq![JsonStep::Item(16)]),
        data_at(d).strike == number_there(d, JsonStep::Item(17)),
        data_at(d).right == leaf_text(d, seq![JsonStep::Item(18)]),
        data_at(d).delta is None,
        data_at(d).theta is None,
        data_at(d).vega is None,
        data_at(d).rho is None,
{
}

/// The data of a message are what it has under `data`: a list if it has a first item, and an
/// object otherwise.
pub proof fn law_messages_have_data(nodes: JsonNodes)
    ensures
        message_data(nodes) is Some <==> nodes.contains_key(seq![JsonStep::Key("data"@)]),
        message_data(nodes) matches Some(d) ==> d == if nodes.contains_key(
            seq![JsonStep::Key("data"@), JsonStep::Item(0)],
        ) {
            data_at(below(nodes, "data"@))
        } else {
            data_in(below(nodes, "data"@))
        },
{
    assert(seq![JsonStep::Key("data"@)] + seq![JsonStep::Item(0)] =~= seq![
        JsonStep::Key("data"@),
        JsonStep::Item(0),
    ]);
}

/// What is below a key is what the document has behind that key.
pub proof fn law_nested_values(nodes: JsonNodes, key: Seq<char>, step: JsonStep)
    requires
        nodes.contains_key(seq![JsonStep::Key(key)]),
    ensures
        leaf_text(below(nodes, key), seq![step]) == leaf_text(nodes, seq![JsonStep::Key(key), step]),
        leaf_number(below(nodes, key), seq![step]) == leaf_number(
            nodes,
            seq![JsonStep::Key(key), step],
        ),
        leaf_count(below(nodes, key), seq![step]) == leaf_count(
            nodes,
            seq![JsonStep::Key(key), step],
        ),
{
    assert(seq![JsonStep::Key(key)] + seq![step] =~= seq![JsonStep::Key(key), step]);
}

// ── Futures ─────────────────────────────────────────────────────────────────

/// A price that comes as a whole number of billions is that many dollars.
pub proof fn law_prices_come_in_billionths(dollars: int)
    requires
        -5_000_000 <= dollars <= 5_000_000,
    ensures
        price_of((1_000_000_000 * dollars) as i64) == Double::whole(dollars),
{
    let n: int = dollars * 1_000_000_000;
    lemma_whole_is_whole(n);
    lemma_whole_is_whole(1_000_000_000);
    law_whole_numbers_are_exact(n);
    law_whole_numbers_are_exact(1_000_000_000);
    lemma_whole_quotient(Double::whole(n), Double::whole(1_000_000_000), dollars, 1_000_000_000);
}

/// The event of a best bid and ask has the values of its record, each in its own place, and the
/// growth of the bid size less the growth of the ask size since the last record of the
/// instrument; after it, the sizes of the record are what is known of the instrument, and no
/// other instrument is affected.
pub proof fn law_best_bid_and_ask(rec: DBNRecord, book: Map<u64, BookState>, other: u64)
    requires
        rec.header.rtype == 1,
    ensures
        ({
            let id = rec.header.instrument_id;
            let e = top_of_book(rec, known(book, id));
            &&& e.ts_ns == rec.header.ts_event
            &&& e.instrument_id == id
            &&& e.bid_px == Double::whole(rec.bid_px as int).quotient(Double::whole(1_000_000_000))
            &&& e.ask_px == Double::whole(rec.ask_px as int).quotient(Double::whole(1_000_000_000))
            &&& e.bid_sz == rec.bid_sz
            &&& e.ask_sz == rec.ask_sz
            &&& e.sequence == rec.sequence
            &&& book.contains_key(id) ==> e.ofi == (rec.bid_sz - book[id].bid_sz) - (rec.ask_sz
                - book[id].ask_sz)
            &&& !book.contains_key(id) ==> e.ofi == 0
            &&& next_book(book, rec).contains_key(id)
            &&& next_book(book, rec)[id].bid_sz == rec.bid_sz
            &&& next_book(book, rec)[id].ask_sz == rec.ask_sz
            &&& other != id ==> known(next_book(book, rec), other) == known(book, other)
        }),
{
}

/// Records that are not of a best bid and ask change nothing that is known of an instrument.
pub proof fn law_other_records_change_no_book(rec: DBNRecord, book: Map<u64, BookState>)
    requires
        rec.header.rtype != 1,
    ensures
        next_book(book, rec) == book,
{
}

/// The event of a trade has the values of its record, each in its own place; its side is that of
/// the first character: `B` for the bid, `A` for the ask, and neither for anything else.
pub proof fn law_trades(rec: DBNRecord, t: FuturesTradeEvent)
    requires
        is_trade_of(rec, t),
    ensures
        t.ts_ns == rec.header.ts_event,
        t.instrument_id == rec.header.instrument_id,
        t.raw_symbol@.len() == 0,
        t.price == Double::whole(rec.price as int).quotient(Double::whole(1_000_000_000)),
        t.size == rec.size,
        t.sequence == rec.sequence,
        t.side is Bid <==> (rec.side matches Some(s) && s@.len() > 0 && s@[0] == 'B'),
        t.side is Ask <==> (rec.side matches Some(s) && s@.len() > 0 && s@[0] == 'A'),
{
}

/// The characters that stand for actions and sides.
pub proof fn law_codes_of_market_events(c: char)
    ensures
        action_of(c) == Ok::<MBOAction, CodeError>(MBOAction::Add) <==> c == 'A',
        action_of(c) == Ok::<MBOAction, CodeError>(MBOAction::Cancel) <==> c == 'C',
        action_of(c) == Ok::<MBOAction, CodeError>(MBOAction::Modify) <==> c == 'M',
        action_of(c) == Ok::<MBOAction, CodeError>(MBOAction::Trade) <==> c == 'T',
        action_of(c) == Ok::<MBOAction, CodeError>(MBOAction::Fill) <==> c == 'F',
        action_of(c) == Ok::<MBOAction, CodeError>(MBOAction::Clear) <==> c == 'R',
        action_of(c) is Err ==> action_of(c) == Err::<MBOAction, CodeError>(
            CodeError::UnknownAction(c),
        ),
        side_of(c) == Ok::<Side, CodeError>(Side::Bid) <==> c == 'B',
        side_of(c) == Ok::<Side, CodeError>(Side::Ask) <==> c == 'A',
        side_of(c) == Ok::<Side, CodeError>(Side::Neither) <==> c == 'N' || c == 'Z',
        side_of(c) is Err ==> side_of(c) == Err::<Side, CodeError>(CodeError::UnknownSide(c)),
{
}

/// A subscription asks for a schema of all symbols, which can be read back from it where they have
/// no comma in them.
pub proof fn law_subscriptions_name_every_symbol(schema: Seq<char>, symbols: Seq<Seq<char>>)
    requires
        symbols.len() > 0,
        forall|i: int| 0 <= i < symbols.len() ==> !(#[trigger] symbols[i]).contains(','),
    ensures
        subscription(schema, symbols).0 == "subscribe"@,
        subscription(schema, symbols).1 == schema,
        pieces(subscription(schema, symbols).2, ',') == symbols,
        subscription(schema, symbols).3 == "json"@,
{
    reveal_strlit(",");
    assert(","@ =~= seq![',']);
    law_split_undoes_join(symbols, ',');
}

// ── Words ───────────────────────────────────────────────────────────────────

/// What is reported of a character that has no meaning, and of a login that fails.
pub proof fn law_reports_of_feeds(c: CodeError, e: FeedError)
    ensures
        match c {
            CodeError::UnknownAction(x) => c.text() == "Unknown MBO action: "@ + seq![x],
            CodeError::UnknownSide(x) => c.text() == "Unknown side: "@ + seq![x],
        },
        match e {
            FeedError::Unreadable(u) => e.text() == u.report@,
            FeedError::AuthFailed { reply } => e.text() == "Databento auth failed: "@ + reply@,
        },
{
}

/// Characters are read as actions and sides by their codes.
pub proof fn law_codes_are_read(c: char)
    ensures
        <MBOAction as TryFromSpec<char>>::obeys_try_from_spec(),
        <MBOAction as TryFromSpec<char>>::try_from_spec(c) == action_of(c),
        <Side as TryFromSpec<char>>::obeys_try_from_spec(),
        <Side as TryFromSpec<char>>::try_from_spec(c) == side_of(c),
{
}

} // verus!
