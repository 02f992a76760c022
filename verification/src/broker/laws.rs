//! What the requests to brokers say, and what their replies mean.

use super::alpaca;
use super::alpaca::{AlpacaError, LegBodyView, OrderBodyView};
use super::dryrun::dry_name;
use super::tradier;
use super::tradier::{leg_field, net_credit, order_form, TradierBroker, TradierFault};
use super::tradovate;
use super::tradovate::{AccountView, AuthResponse, TradovateBroker, TradovateFault};
use crate::http::Method;
use crate::num::double::{lemma_whole_zero, Double};
use crate::num::format::fixed;
use crate::num::laws::{
    distance, is_whole, law_whole_numbers_are_exact, lemma_whole_absolute, lemma_whole_is_unique,
    lemma_whole_is_whole, lemma_whole_opposite, lemma_whole_order, lemma_whole_sum, EXACT,
};
use crate::orders::{LegView, OrderSide, OrderType, OrderView, TimeInForce};
use crate::outside::uuid_text;
use crate::text::{
    all_digits, decimal, digits_value, head, is_digit, maybe, signed_decimal, trimmed, without,
};
use crate::text_laws::{law_decimals_are_distinct, law_decimals_read_back};
use vstd::prelude::*;

verus! {

// ── Tradier: forms ──────────────────────────────────────────────────────────

/// What the brokerage wants to be told of a side: every order opens a position.
pub open spec fn opening(side: OrderSide) -> Seq<char> {
    if side == OrderSide::Buy {
        "buy_to_open"@
    } else {
        "sell_to_open"@
    }
}

proof fn lemma_leg_forms(legs: Seq<LegView>, n: int, i: int)
    requires
        0 <= i < n <= legs.len(),
    ensures
        ({
            let f = tradier::leg_forms(legs, n);
            let name = "option["@ + decimal(i as nat) + "]["@;
            &&& f.len() == 3 * n
            &&& f[3 * i] == (name + "option_symbol"@ + "]"@, without(legs[i].symbol, ' '))
            &&& f[3 * i + 1] == (name + "side"@ + "]"@, opening(legs[i].side))
            &&& f[3 * i + 2] == (name + "quantity"@ + "]"@, decimal(legs[i].quantity as nat))
        }),
    decreases n,
{
    lemma_leg_forms_len(legs, n - 1);
    if i < n - 1 {
        lemma_leg_forms(legs, n - 1, i);
    }
}

proof fn lemma_leg_forms_len(legs: Seq<LegView>, n: int)
    requires
        0 <= n,
    ensures
        tradier::leg_forms(legs, n).len() == 3 * n,
    decreases n,
{
    if n > 0 {
        lemma_leg_forms_len(legs, n - 1);
    }
}

/// The form of an order of several legs has three fields for every leg, under its number: its own
/// symbol without spaces, its own side and its own quantity, in digits that spell it.
pub proof fn law_forms_say_what_every_leg_is(o: OrderView, i: int)
    requires
        o.legs.len() > 1,
        0 <= i < o.legs.len(),
    ensures
        ({
            let form = order_form(o);
            let leg = o.legs[i];
            let name = "option["@ + decimal(i as nat) + "]["@;
            &&& form.len() == 5 + 3 * o.legs.len()
            &&& form[5 + 3 * i] == (name + "option_symbol"@ + "]"@, without(leg.symbol, ' '))
            &&& form[6 + 3 * i] == (
                name + "side"@ + "]"@,
                if leg.side == OrderSide::Buy {
                    "buy_to_open"@
                } else {
                    "sell_to_open"@
                },
            )
            &&& form[7 + 3 * i].0 == name + "quantity"@ + "]"@
            &&& form[7 + 3 * i].1 == decimal(leg.quantity as nat)
            &&& all_digits(form[7 + 3 * i].1)
            &&& digits_value(form[7 + 3 * i].1) == leg.quantity
        }),
{
    lemma_leg_forms(o.legs, o.legs.len() as int, i);
    law_decimals_read_back(o.legs[i].quantity as nat);
    let legs: Seq<(Seq<char>, Seq<char>)> = tradier::leg_forms(o.legs, o.legs.len() as int);
    let form: Seq<(Seq<char>, Seq<char>)> = order_form(o);
    assert(form[5 + 3 * i] == legs[3 * i]);
    assert(form[6 + 3 * i] == legs[3 * i + 1]);
    assert(form[7 + 3 * i] == legs[3 * i + 2]);
}

/// The form of an order of several legs opens with its class, the root of its first symbol, its
/// type, its duration, and the net price without its sign, in cents.
pub proof fn law_forms_open_with_the_order(o: OrderView)
    requires
        o.legs.len() > 1,
    ensures
        order_form(o)[0] == ("class"@, "multileg"@),
        order_form(o)[1] == ("symbol"@, trimmed(head(o.legs[0].symbol, 6))),
        order_form(o)[2] == ("type"@, "limit"@),
        order_form(o)[3] == ("duration"@, "day"@),
        order_form(o)[4] == ("price"@, fixed(net_credit(o.legs).absolute(), 2)),
{
}

/// The form of an order of one leg says what the leg is: its symbol without spaces, its side, its
/// quantity and its limit price in cents.
pub proof fn law_single_forms_say_what_the_leg_is(o: OrderView)
    requires
        o.legs.len() == 1,
    ensures
        ({
            let leg = o.legs[0];
            &&& order_form(o) == seq![
                ("class"@, "option"@),
                ("option_symbol"@, without(leg.symbol, ' ')),
                (
                    "side"@,
                    if leg.side == OrderSide::Buy {
                        "buy_to_open"@
                    } else {
                        "sell_to_open"@
                    },
                ),
                ("quantity"@, decimal(leg.quantity as nat)),
                ("type"@, "limit"@),
                (
                    "price"@,
                    fixed(
                        match leg.limit_price {
                            Some(p) => p,
                            None => Double::of(false, 0),
                        },
                        2,
                    ),
                ),
                ("duration"@, "day"@),
            ]
            &&& digits_value(order_form(o)[3].1) == leg.quantity
        }),
{
    law_decimals_read_back(o.legs[0].quantity as nat);
}

proof fn lemma_digits_end(a: nat, b: nat, x: Seq<char>, y: Seq<char>)
    requires
        decimal(a) + x == decimal(b) + y,
        x.len() > 0,
        y.len() > 0,
        !is_digit(x[0]),
        !is_digit(y[0]),
    ensures
        a == b,
        x == y,
{
    law_decimals_read_back(a);
    law_decimals_read_back(b);
    let s: Seq<char> = decimal(a) + x;
    let t: Seq<char> = decimal(b) + y;
    let m: int = decimal(a).len() as int;
    let n: int = decimal(b).len() as int;
    assert(s[m] == x[0]);
    assert(t[n] == y[0]);
    if m < n {
        assert(t[m] == decimal(b)[m]);
    }
    if n < m {
        assert(s[n] == decimal(a)[n]);
    }
    assert(decimal(a) =~= s.take(m));
    assert(decimal(b) =~= t.take(n));
    assert(x =~= s.skip(m));
    assert(y =~= t.skip(n));
    law_decimals_are_distinct(a, b);
}

/// No two legs share a field of the form, and no two fields of a leg share a name.
pub proof fn law_fields_of_legs_are_distinct(i: nat, j: nat, a: Seq<char>, b: Seq<char>)
    requires
        leg_field(i as int, a) == leg_field(j as int, b),
    ensures
        i == j,
        a == b,
{
    reveal_strlit("][");
    reveal_strlit("]");
    let x: Seq<char> = "]["@ + a + "]"@;
    let y: Seq<char> = "]["@ + b + "]"@;
    let p: int = "option["@.len() as int;
    assert(leg_field(i as int, a).skip(p) =~= decimal(i) + x);
    assert(leg_field(j as int, b).skip(p) =~= decimal(j) + y);
    lemma_digits_end(i, j, x, y);
    assert(x.subrange(2, x.len() - 1) =~= a);
    assert(y.subrange(2, y.len() - 1) =~= b);
}

// ── Tradier: prices ─────────────────────────────────────────────────────────

/// What legs bring in per unit: their prices, added for what is sold and taken away for what is
/// bought.
pub open spec fn brought_in(legs: Seq<LegView>, prices: Seq<int>) -> int
    decreases legs.len(),
{
    if legs.len() == 0 {
        0
    } else {
        brought_in(legs.drop_last(), prices) + if legs.last().side == OrderSide::Sell {
            prices[legs.len() - 1]
        } else {
            -prices[legs.len() - 1]
        }
    }
}

pub open spec fn sum_of_sizes(prices: Seq<int>) -> int
    decreases prices.len(),
{
    if prices.len() == 0 {
        0
    } else {
        sum_of_sizes(prices.drop_last()) + distance(prices.last())
    }
}

pub open spec fn limit_at(leg: LegView, p: int) -> bool {
    match leg.limit_price {
        Some(x) => x == Double::whole(p),
        None => p == 0,
    }
}

proof fn lemma_brought_in(legs: Seq<LegView>, prices: Seq<int>, fewer: Seq<int>)
    requires
        legs.len() == fewer.len(),
        fewer.len() <= prices.len(),
        forall|i: int| 0 <= i < fewer.len() ==> fewer[i] == prices[i],
    ensures
        brought_in(legs, prices) == brought_in(legs, fewer),
        distance(brought_in(legs, fewer)) <= sum_of_sizes(fewer),
    decreases legs.len(),
{
    if legs.len() > 0 {
        lemma_brought_in(legs.drop_last(), prices, fewer.drop_last());
        lemma_brought_in(legs.drop_last(), fewer, fewer.drop_last());
    }
}

/// The net price of an order in whole dollars is the sum of the prices of all legs, added for what
/// is sold and taken away for what is bought, whatever the quantities are.
pub proof fn law_net_prices_add_up(legs: Seq<LegView>, prices: Seq<int>)
    requires
        legs.len() == prices.len(),
        forall|i: int|
            0 <= i < legs.len() ==> limit_at(#[trigger] legs[i], prices[i]) && -EXACT <= prices[i]
                <= EXACT,
        sum_of_sizes(prices) <= EXACT,
    ensures
        net_credit(legs) == Double::whole(brought_in(legs, prices)),
        net_credit(legs).absolute() == Double::whole(distance(brought_in(legs, prices))),
    decreases legs.len(),
{
    lemma_whole_zero();
    lemma_brought_in(legs, prices, prices);
    if legs.len() > 0 {
        let front: Seq<LegView> = legs.drop_last();
        let fewer: Seq<int> = prices.drop_last();
        let k: int = legs.len() - 1;
        lemma_brought_in(front, prices, fewer);
        assert forall|i: int| 0 <= i < front.len() implies limit_at(#[trigger] front[i], fewer[i])
            && -EXACT <= fewer[i] <= EXACT by {
            assert(limit_at(legs[i], prices[i]));
        }
        law_net_prices_add_up(front, fewer);
        assert(limit_at(legs[k], prices[k]));
        let p: int = prices[k];
        let t: int = brought_in(front, fewer);
        let d: int = brought_in(legs, prices) - t;
        lemma_whole_is_whole(p);
        lemma_whole_opposite(Double::whole(p), p);
        let credit: Double = tradier::leg_credit(legs[k]);
        assert(is_whole(credit, d));
        lemma_whole_is_whole(t);
        law_whole_numbers_are_exact(t);
        lemma_whole_sum(Double::whole(t), credit, t, d);
        if t + d != 0 {
            lemma_whole_is_unique(Double::whole(t).sum(credit), t + d);
        } else if t < 0 {
            lemma_whole_order(Double::of(false, 0), credit, 0, d);
        }
    }
    lemma_whole_is_whole(brought_in(legs, prices));
    lemma_whole_absolute(net_credit(legs), brought_in(legs, prices));
}

/// One more leg changes the net price by its own limit price: added if it is sold, taken away if
/// it is bought, whatever the numbers are.
pub proof fn law_one_more_leg_changes_the_price(legs: Seq<LegView>, leg: LegView)
    ensures
        ({
            let price = match leg.limit_price {
                Some(p) => p,
                None => Double::of(false, 0),
            };
            &&& net_credit(Seq::empty()) == Double::of(false, 0)
            &&& net_credit(legs.push(leg)) == net_credit(legs).sum(
                if leg.side == OrderSide::Sell {
                    price
                } else {
                    price.opposite()
                },
            )
        }),
{
    assert(legs.push(leg).drop_last() =~= legs);
}

// ── Alpaca ──────────────────────────────────────────────────────────────────

/// Whether a body says what a leg is.
pub open spec fn says_leg(b: LegBodyView, leg: LegView) -> bool {
    &&& b.symbol == leg.symbol
    &&& all_digits(b.qty)
    &&& digits_value(b.qty) == leg.quantity
    &&& b.qty == decimal(leg.quantity as nat)
    &&& b.side == if leg.side == OrderSide::Buy {
        "buy"@
    } else {
        "sell"@
    }
    &&& b.order_type == match leg.order_type {
        OrderType::Market => "market"@,
        OrderType::Limit => "limit"@,
        OrderType::Stop => "stop"@,
        OrderType::StopLimit => "stop_limit"@,
    }
    &&& (b.limit_price is Some) == (leg.limit_price is Some)
    &&& leg.limit_price matches Some(p) ==> b.limit_price == Some(fixed(p, 4))
    &&& (b.stop_price is Some) == (leg.stop_price is Some)
    &&& leg.stop_price matches Some(p) ==> b.stop_price == Some(fixed(p, 4))
}

/// The body of an order says what every leg is, in order, how long the order is good for and its
/// identifier; an order of one leg is sent as that leg, and others as a list.
pub proof fn law_alpaca_bodies_say_what_the_order_is(o: OrderView, i: int)
    requires
        0 <= i < o.legs.len(),
    ensures
        ({
            let tif = match o.tif {
                TimeInForce::Day => "day"@,
                TimeInForce::GTC => "gtc"@,
                TimeInForce::IOC => "ioc"@,
                TimeInForce::FOK => "fok"@,
            };
            match alpaca::order_body(o) {
                OrderBodyView::Single { leg, time_in_force, client_order_id } => {
                    &&& o.legs.len() == 1
                    &&& says_leg(leg, o.legs[0])
                    &&& time_in_force == tif
                    &&& client_order_id == uuid_text(o.id)
                },
                OrderBodyView::Multi { order_type, time_in_force, client_order_id, legs } => {
                    &&& o.legs.len() > 1
                    &&& order_type == "mlo"@
                    &&& legs.len() == o.legs.len()
                    &&& says_leg(legs[i], o.legs[i])
                    &&& time_in_force == tif
                    &&& client_order_id == uuid_text(o.id)
                },
            }
        }),
{
    law_decimals_read_back(o.legs[i].quantity as nat);
    law_decimals_read_back(o.legs[0].quantity as nat);
}

// ── Tradovate ───────────────────────────────────────────────────────────────

/// The body of an order says what its leg is, for which account, how long it is good for and to
/// which strategy it belongs.
pub proof fn law_tradovate_bodies_say_what_the_order_is(account: AccountView, o: OrderView)
    requires
        o.legs.len() == 1,
    ensures
        ({
            let b = tradovate::place_order(account, o);
            let leg = o.legs[0];
            &&& b.account_spec == account.name
            &&& b.account_id == account.id
            &&& b.symbol == leg.symbol
            &&& b.order_qty == leg.quantity
            &&& b.action == if leg.side == OrderSide::Buy {
                "Buy"@
            } else {
                "Sell"@
            }
            &&& b.order_type == match leg.order_type {
                OrderType::Market => "Market"@,
                OrderType::Limit => "Limit"@,
                OrderType::Stop => "Stop"@,
                OrderType::StopLimit => "StopLimit"@,
            }
            &&& b.price == leg.limit_price
            &&& b.stop_price == leg.stop_price
            &&& b.time_in_force == match o.tif {
                TimeInForce::Day => "Day"@,
                TimeInForce::GTC => "GTC"@,
                TimeInForce::IOC => "IOC"@,
                TimeInForce::FOK => "FOK"@,
            }
            &&& b.text == Some("strategy:"@ + o.strategy_id)
        }),
{
}

/// A login hands out its tokens if and only if the user is active and there is a token; otherwise
/// the reason is given.
pub proof fn law_logins_need_an_active_user(resp: AuthResponse)
    ensures
        match tradovate::login_reply(resp) {
            Ok(t) => {
                &&& maybe(resp.user_status) == Some("Active"@)
                &&& maybe(resp.access_token) == Some(t.access_token)
                &&& t.p_token == maybe(resp.p_token)
                &&& t.p_time == maybe(resp.p_time)
            },
            Err(TradovateFault::NotActive { status }) => {
                &&& maybe(resp.user_status) != Some("Active"@)
                &&& maybe(resp.user_status) matches Some(s) ==> status == s
                &&& maybe(resp.user_status) is None ==> status == "unknown"@
            },
            Err(f) => {
                &&& maybe(resp.user_status) == Some("Active"@)
                &&& maybe(resp.access_token) is None
                &&& f == TradovateFault::NoAccessToken
            },
        },
{
    reveal_strlit("unknown");
    reveal_strlit("Active");
    assert("unknown"@.len() != "Active"@.len());
}

/// An order that the brokerage refuses, with a reason other than `None`, is rejected with that
/// reason; otherwise it is known by the number in the reply, if there is one.
pub proof fn law_tradovate_replies(
    order_id: Option<i64>,
    reason: Option<Seq<char>>,
    text: Option<Seq<char>>,
)
    ensures
        match tradovate::order_reply(order_id, reason, text) {
            Ok(name) => {
                &&& reason is None || reason == Some("None"@)
                &&& order_id matches Some(id) && name == signed_decimal(id as int)
            },
            Err(TradovateFault::Rejected { reason: why, text: words }) => {
                &&& reason == Some(why)
                &&& why != "None"@
                &&& text matches Some(t) ==> words == t
                &&& text is None ==> words.len() == 0
            },
            Err(f) => {
                &&& reason is None || reason == Some("None"@)
                &&& order_id is None
                &&& f == TradovateFault::NoOrderId
            },
        },
{
}

/// An order that is accepted is known by the number in the reply; a reply without a number, or one
/// that reports a failure, says why.
pub proof fn law_tradier_replies(
    success: bool,
    status: Seq<char>,
    shown: Seq<char>,
    fault: Option<Seq<char>>,
    order_id: Option<u64>,
)
    ensures
        match tradier::order_reply(success, status, shown, fault, order_id) {
            Ok(name) => {
                &&& success
                &&& order_id matches Some(id) && all_digits(name) && digits_value(name) == id
                    && name == decimal(id as nat)
            },
            Err(TradierFault::Refused { status: code, fault: why }) => {
                &&& !success
                &&& code == status
                &&& fault matches Some(f) ==> why == f
                &&& fault is None ==> why == "unknown error"@
            },
            Err(f) => {
                &&& success
                &&& order_id is None
                &&& f == TradierFault::NoOrderId { shown }
            },
        },
{
    if order_id is Some {
        law_decimals_read_back(order_id->0 as nat);
    }
}

// ── States of orders ────────────────────────────────────────────────────────

/// The words by which the three brokerages call the states of an order.
pub proof fn law_states_have_their_words(word: Seq<char>)
    ensures
        ({
            let s = tradier::status_of(word);
            &&& s is Submitted <==> word == "open"@ || word == "partially_filled"@
            &&& s is Filled <==> word == "filled"@
            &&& s is Cancelled <==> word == "canceled"@ || word == "expired"@
            &&& s is Rejected <==> word == "rejected"@
            &&& !(s is PartiallyFilled)
        }),
        ({
            let s = alpaca::status_of(word);
            &&& s is Submitted <==> word == "new"@ || word == "accepted"@ || word == "pending_new"@
            &&& s is PartiallyFilled <==> word == "partially_filled"@
            &&& s is Filled <==> word == "filled"@
            &&& s is Cancelled <==> word == "canceled"@ || word == "expired"@
            &&& s is Rejected <==> word == "rejected"@ || word == "suspended"@
        }),
        ({
            let s = tradovate::status_of(word);
            &&& s is Submitted <==> word == "Working"@ || word == "PendingNew"@ || word
                == "Triggered"@
            &&& s is Filled <==> word == "Filled"@
            &&& s is Cancelled <==> word == "Canceled"@ || word == "Expired"@
            &&& s is Rejected <==> word == "Rejected"@
            &&& !(s is PartiallyFilled)
        }),
{
    lemma_words();
}

/// First letters and lengths of the words.
spec fn print(w: Seq<char>) -> (nat, char, char) {
    (w.len(), w[0], w[2])
}

proof fn lemma_words()
    ensures
        print("open"@) == (4nat, 'o', 'e'),
        print("partially_filled"@) == (16nat, 'p', 'r'),
        print("filled"@) == (6nat, 'f', 'l'),
        print("canceled"@) == (8nat, 'c', 'n'),
        print("expired"@) == (7nat, 'e', 'p'),
        print("rejected"@) == (8nat, 'r', 'j'),
        print("suspended"@) == (9nat, 's', 's'),
        print("new"@) == (3nat, 'n', 'w'),
        print("accepted"@) == (8nat, 'a', 'c'),
        print("pending_new"@) == (11nat, 'p', 'n'),
        print("Working"@) == (7nat, 'W', 'r'),
        print("PendingNew"@) == (10nat, 'P', 'n'),
        print("Triggered"@) == (9nat, 'T', 'i'),
        print("Canceled"@) == (8nat, 'C', 'n'),
        print("Expired"@) == (7nat, 'E', 'p'),
        print("Filled"@) == (6nat, 'F', 'l'),
        print("Rejected"@) == (8nat, 'R', 'j'),
{
    reveal_strlit("open");
    reveal_strlit("partially_filled");
    reveal_strlit("filled");
    reveal_strlit("canceled");
    reveal_strlit("expired");
    reveal_strlit("rejected");
    reveal_strlit("suspended");
    reveal_strlit("new");
    reveal_strlit("accepted");
    reveal_strlit("pending_new");
    reveal_strlit("Working");
    reveal_strlit("PendingNew");
    reveal_strlit("Triggered");
    reveal_strlit("Canceled");
    reveal_strlit("Expired");
    reveal_strlit("Filled");
    reveal_strlit("Rejected");
}

// ── What is sent with every request, and what is reported ───────────────────

/// Requests go to the place of the login and carry the access token.
pub proof fn law_requests_carry_the_token(
    b: TradovateBroker,
    c: TradierBroker,
    method: Method,
    path: Seq<char>,
)
    ensures
        b.authorized(method, path).method == method,
        b.authorized(method, path).url == b.login().base_url + path,
        b.authorized(method, path).headers == seq![
            ("Authorization"@, "Bearer "@ + b.tokens().access_token),
        ],
        c.standing_headers() == seq![
            ("Authorization"@, "Bearer "@ + c.key()),
            ("Accept"@, "application/json"@),
        ],
{
}

/// The name of an order that is not sent anywhere is `DRY-` and the first eight characters of an
/// identifier.
pub proof fn law_dry_names_are_short(id: u128)
    ensures
        dry_name(id).len() <= 12,
        uuid_text(id).len() >= 8 ==> dry_name(id) == seq!['D', 'R', 'Y', '-'] + uuid_text(id).take(8),
{
    reveal_strlit("DRY-");
    if uuid_text(id).len() >= 8 {
        assert(dry_name(id) =~= seq!['D', 'R', 'Y', '-'] + uuid_text(id).take(8));
    }
}

/// What is reported names the brokerage and what it said.
pub proof fn law_reports_of_brokers(e: AlpacaError, t: TradierFault, v: TradovateFault)
    ensures
        match e {
            AlpacaError::Submit { status, body } => e.text() == "Alpaca submit_order failed ["@
                + status@ + "]: "@ + body@,
            AlpacaError::Cancel { status } => e.text() == "Alpaca cancel_order failed: "@ + status@,
        },
        match t {
            TradierFault::NoLegs => t.text() == "Tradier: order has no legs"@,
            TradierFault::NotJson => t.text() == "error decoding response body"@,
            TradierFault::Refused { status, fault } => t.text() == "Tradier API error ["@ + status
                + "]: "@ + fault,
            TradierFault::NoOrderId { shown } => t.text() == "Tradier response missing order.id: "@
                + shown,
        },
        match v {
            TradovateFault::NotActive { status } => v.text()
                == "Tradovate auth: unexpected userStatus = "@ + status,
            TradovateFault::NoAccessToken => v.text() == "Tradovate auth: missing accessToken"@,
            TradovateFault::NoAccounts => v.text() == "Tradovate: no accounts found"@,
            TradovateFault::NoLegs => v.text() == "Tradovate: order has no legs"@,
            TradovateFault::SeveralLegs => v.text()
                == "Tradovate: multi-leg futures not yet supported — use spread symbol"@,
            TradovateFault::Rejected { reason, text } => v.text() == "Tradovate order rejected: "@
                + reason + " — "@ + text,
            TradovateFault::NoOrderId => v.text() == "Tradovate: missing orderId in response"@,
            TradovateFault::BadBrokerId { broker_id } => v.text()
                == "Tradovate: invalid broker_id '"@ + broker_id + "'"@,
        },
{
}

} // verus!
