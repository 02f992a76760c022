//! The Tradier brokerage, which trades options.

use crate::execution::funding::leg_price;
use crate::http::{field, field_views, Field, Method, Request, RequestView};
use crate::num::double::{or_zero, value_or_zero, Double};
use crate::num::format::fixed;
use crate::orders::{
    leg_views, LegView, Order, OrderLeg, OrderSide, OrderStatus, OrderView,
};
use crate::outside::{json_debug, json_parsed, json_shown};
use crate::reply::{
    below, count_below, number_below, read_inner_count, read_inner_number, read_inner_text,
    text_below, NotJson,
};
use crate::text;
use crate::text::{decimal, head, same, trimmed, without};
use vstd::prelude::*;

verus! {

pub const BASE_LIVE: &'static str = "https://api.tradier.com/v1";

pub const BASE_SANDBOX: &'static str = "https://sandbox.tradier.com/v1";

pub struct TradierBroker {
    base_url: String,
    token: String,
    account_id: String,
}

/// A symbol as the brokerage writes it: without spaces.
pub open spec fn compact_symbol(occ: Seq<char>) -> Seq<char> {
    without(occ, ' ')
}

/// The root of an option symbol: what its first six columns hold.
pub open spec fn root_of(occ: Seq<char>) -> Seq<char> {
    trimmed(head(occ, 6))
}

/// A side as the brokerage writes it. Every order opens a position.
pub open spec fn side_word(side: OrderSide) -> Seq<char> {
    match side {
        OrderSide::Buy => "buy_to_open"@,
        OrderSide::Sell => "sell_to_open"@,
    }
}

/// What a leg brings in per unit: negative if it is paid for.
pub open spec fn leg_credit(leg: LegView) -> Double {
    match leg.side {
        OrderSide::Sell => leg_price(leg),
        OrderSide::Buy => leg_price(leg).opposite(),
    }
}

/// What the legs of a combination bring in per unit, added up from the first to the last.
pub open spec fn net_credit(legs: Seq<LegView>) -> Double
    decreases legs.len(),
{
    if legs.len() == 0 {
        Double::of(false, 0)
    } else {
        net_credit(legs.drop_last()).sum(leg_credit(legs.last()))
    }
}

/// The form fields of an order with one leg.
pub open spec fn single_form(leg: LegView) -> Seq<(Seq<char>, Seq<char>)> {
    seq![
        ("class"@, "option"@),
        ("option_symbol"@, compact_symbol(leg.symbol)),
        ("side"@, side_word(leg.side)),
        ("quantity"@, decimal(leg.quantity as nat)),
        ("type"@, "limit"@),
        ("price"@, fixed(leg_price(leg), 2)),
        ("duration"@, "day"@),
    ]
}

/// The name of a form field of the `i`-th leg.
pub open spec fn leg_field(i: int, name: Seq<char>) -> Seq<char> {
    "option["@ + decimal(i as nat) + "]["@ + name + "]"@
}

/// The form fields of the first `n` legs of a combination.
pub open spec fn leg_forms(legs: Seq<LegView>, n: int) -> Seq<(Seq<char>, Seq<char>)>
    decreases n,
{
    if n <= 0 {
        Seq::empty()
    } else {
        leg_forms(legs, n - 1) + seq![
            (leg_field(n - 1, "option_symbol"@), compact_symbol(legs[n - 1].symbol)),
            (leg_field(n - 1, "side"@), side_word(legs[n - 1].side)),
            (leg_field(n - 1, "quantity"@), decimal(legs[n - 1].quantity as nat)),
        ]
    }
}

/// The form fields of a combination. The price is the net one, without its sign.
pub open spec fn combination_form(legs: Seq<LegView>) -> Seq<(Seq<char>, Seq<char>)> {
    seq![
        ("class"@, "multileg"@),
        ("symbol"@, root_of(legs[0].symbol)),
        ("type"@, "limit"@),
        ("duration"@, "day"@),
        ("price"@, fixed(net_credit(legs).absolute(), 2)),
    ] + leg_forms(legs, legs.len() as int)
}

pub open spec fn order_form(o: OrderView) -> Seq<(Seq<char>, Seq<char>)> {
    if o.legs.len() == 1 {
        single_form(o.legs[0])
    } else {
        combination_form(o.legs)
    }
}

/// What the brokerage calls the states of an order.
pub open spec fn status_of(word: Seq<char>) -> OrderStatus {
    if word == "open"@ || word == "partially_filled"@ {
        OrderStatus::Submitted
    } else if word == "filled"@ {
        OrderStatus::Filled
    } else if word == "canceled"@ || word == "expired"@ {
        OrderStatus::Cancelled
    } else if word == "rejected"@ {
        OrderStatus::Rejected
    } else {
        OrderStatus::Pending
    }
}

/// Why the brokerage did not accept an order.
#[derive(Debug)]
pub enum TradierError {
    NoLegs,
    NotJson,
    Refused { status: String, fault: String },
    /// The reply does not name the order; it is kept as it is shown for debugging.
    NoOrderId { shown: String },
}

/// What a [`TradierError`] says.
pub enum TradierFault {
    NoLegs,
    NotJson,
    Refused { status: Seq<char>, fault: Seq<char> },
    NoOrderId { shown: Seq<char> },
}

impl View for TradierError {
    type V = TradierFault;

    open spec fn view(&self) -> TradierFault {
        match self {
            TradierError::NoLegs => TradierFault::NoLegs,
            TradierError::NotJson => TradierFault::NotJson,
            TradierError::Refused { status, fault } => TradierFault::Refused {
                status: status@,
                fault: fault@,
            },
            TradierError::NoOrderId { shown } => TradierFault::NoOrderId { shown: shown@ },
        }
    }
}

impl TradierFault {
    pub open spec fn text(self) -> Seq<char> {
        match self {
            TradierFault::NoLegs => "Tradier: order has no legs"@,
            TradierFault::NotJson => "error decoding response body"@,
            TradierFault::Refused { status, fault } => {
                "Tradier API error ["@ + status + "]: "@ + fault
            },
            TradierFault::NoOrderId { shown } => {
                "Tradier response missing order.id: "@ + shown
            },
        }
    }
}

impl TradierError {
    pub fn message(&self) -> (r: String)
        ensures
            r@ == self@.text(),
    {
        match self {
            TradierError::NoLegs => "Tradier: order has no legs".to_string(),
            TradierError::NotJson => "error decoding response body".to_string(),
            TradierError::Refused { status, fault } => {
                let mut out: String = "Tradier API error [".to_string();
                out.append(status.as_str());
                out.append("]: ");
                out.append(fault.as_str());
                out
            },
            TradierError::NoOrderId { shown } => {
                let mut out: String = "Tradier response missing order.id: ".to_string();
                out.append(shown.as_str());
                out
            },
        }
    }
}

/// What a reply to an order means: the name of the order, or why there is none.
pub open spec fn order_reply(
    success: bool,
    status: Seq<char>,
    shown: Seq<char>,
    fault: Option<Seq<char>>,
    order_id: Option<u64>,
) -> Result<Seq<char>, TradierFault> {
    if !success {
        Err(
            TradierFault::Refused {
                status,
                fault: match fault {
                    Some(f) => f,
                    None => "unknown error"@,
                },
            },
        )
    } else {
        match order_id {
            Some(id) => Ok(decimal(id as nat)),
            None => Err(TradierFault::NoOrderId { shown }),
        }
    }
}

impl TradierBroker {
    pub closed spec fn base(self) -> Seq<char> {
        self.base_url@
    }

    pub closed spec fn account(self) -> Seq<char> {
        self.account_id@
    }

    pub closed spec fn key(self) -> Seq<char> {
        self.token@
    }

    /// The headers of every request.
    pub open spec fn standing_headers(self) -> Seq<(Seq<char>, Seq<char>)> {
        seq![("Authorization"@, "Bearer "@ + self.key()), ("Accept"@, "application/json"@)]
    }

    pub fn new(token: String, account_id: String, sandbox: bool) -> (r: TradierBroker)
        ensures
            r.base() == (if sandbox {
                BASE_SANDBOX@
            } else {
                BASE_LIVE@
            }),
            r.account() == account_id@,
            r.key() == token@,
    {
        let base_url: String = if sandbox {
            BASE_SANDBOX.to_string()
        } else {
            BASE_LIVE.to_string()
        };
        TradierBroker { base_url, token, account_id }
    }

    pub fn auth(&self) -> (r: String)
        ensures
            r@ == "Bearer "@ + self.key(),
    {
        let mut out: String = "Bearer ".to_string();
        out.append(self.token.as_str());
        out
    }

    pub fn tradier_symbol(occ: &str) -> (r: String)
        ensures
            r@ == compact_symbol(occ@),
    {
        text::remove_char(occ, ' ')
    }

    pub fn extract_root(occ: &str) -> (r: String)
        ensures
            r@ == root_of(occ@),
    {
        text::trim(text::head_text(occ, 6).as_str())
    }

    pub fn option_side(side: OrderSide) -> (r: &'static str)
        ensures
            r@ == side_word(side),
    {
        match side {
            OrderSide::Buy => "buy_to_open",
            OrderSide::Sell => "sell_to_open",
        }
    }

    /// What the legs bring in per unit: positive for a credit, negative for a debit.
    pub fn net_price(legs: &Vec<OrderLeg>) -> (r: Double)
        ensures
            r == net_credit(leg_views(legs@)),
    {
        let mut net: Double = Double::zero();
        let mut i: usize = 0;
        let ghost all: Seq<LegView> = leg_views(legs@);
        while i < legs.len()
            invariant
                i <= legs.len(),
                all == leg_views(legs@),
                net == net_credit(all.take(i as int)),
            decreases legs.len() - i,
        {
            let leg: &OrderLeg = &legs[i];
            let price: Double = value_or_zero(leg.limit_price);
            let credit: Double = match leg.side {
                OrderSide::Sell => price,
                OrderSide::Buy => price.negated(),
            };
            net = net.plus(credit);
            assert(all.take(i + 1).drop_last() == all.take(i as int));
            assert(all.take(i + 1).last() == leg@);
            i = i + 1;
        }
        assert(all.take(i as int) == all);
        net
    }

    fn request(&self, method: Method, path: &str) -> (r: Request)
        ensures
            r@ == (RequestView {
                method,
                url: self.base() + "/accounts/"@ + self.account() + path@,
                headers: self.standing_headers(),
            }),
    {
        let mut url: String = self.base_url.clone();
        url.append("/accounts/");
        url.append(self.account_id.as_str());
        url.append(path);
        let headers: Vec<Field> = vec![
            field("Authorization", self.auth().as_str()),
            field("Accept", "application/json"),
        ];
        assert(field_views(headers@) =~= self.standing_headers());
        Request { method, url, headers }
    }

    fn submit_single(leg: &OrderLeg) -> (r: Vec<Field>)
        ensures
            field_views(r@) == single_form(leg@),
    {
        let price: Double = value_or_zero(leg.limit_price);
        let r: Vec<Field> = vec![
            field("class", "option"),
            field("option_symbol", TradierBroker::tradier_symbol(leg.symbol.as_str()).as_str()),
            field("side", TradierBroker::option_side(leg.side)),
            field("quantity", text::decimal_text(leg.quantity).as_str()),
            field("type", "limit"),
            field("price", price.fixed_text(2).as_str()),
            field("duration", "day"),
        ];
        assert(field_views(r@) =~= single_form(leg@));
        r
    }

    fn leg_field_name(i: usize, name: &str) -> (r: String)
        ensures
            r@ == leg_field(i as int, name@),
    {
        let mut out: String = "option[".to_string();
        text::push_decimal(&mut out, i as u128);
        out.append("][");
        out.append(name);
        out.append("]");
        out
    }

    fn submit_multileg(legs: &Vec<OrderLeg>) -> (r: Vec<Field>)
        requires
            legs.len() > 0,
        ensures
            field_views(r@) == combination_form(leg_views(legs@)),
    {
        let ghost all: Seq<LegView> = leg_views(legs@);
        let root: String = TradierBroker::extract_root(legs[0].symbol.as_str());
        let net: Double = TradierBroker::net_price(legs).abs();
        let mut out: Vec<Field> = vec![
            field("class", "multileg"),
            field("symbol", root.as_str()),
            field("type", "limit"),
            field("duration", "day"),
            field("price", net.fixed_text(2).as_str()),
        ];
        let ghost front: Seq<(Seq<char>, Seq<char>)> = field_views(out@);
        assert(front =~= seq![
            ("class"@, "multileg"@),
            ("symbol"@, root_of(all[0].symbol)),
            ("type"@, "limit"@),
            ("duration"@, "day"@),
            ("price"@, fixed(net_credit(all).absolute(), 2)),
        ]);
        let mut i: usize = 0;
        assert(field_views(out@) =~= front + leg_forms(all, 0));
        while i < legs.len()
            invariant
                i <= legs.len(),
                all == leg_views(legs@),
                field_views(out@) == front + leg_forms(all, i as int),
            decreases legs.len() - i,
        {
            let ghost before: Seq<Field> = out@;
            let leg: &OrderLeg = &legs[i];
            let symbol: Field = field(
                TradierBroker::leg_field_name(i, "option_symbol").as_str(),
                TradierBroker::tradier_symbol(leg.symbol.as_str()).as_str(),
            );
            let side: Field = field(
                TradierBroker::leg_field_name(i, "side").as_str(),
                TradierBroker::option_side(leg.side),
            );
            let quantity: Field = field(
                TradierBroker::leg_field_name(i, "quantity").as_str(),
                text::decimal_text(leg.quantity).as_str(),
            );
            out.push(symbol);
            out.push(side);
            out.push(quantity);
            assert(all[i as int] == leg@);
            assert(field_views(out@) =~= field_views(before) + seq![symbol@, side@, quantity@]);
            assert(field_views(out@) =~= front + leg_forms(all, i + 1));
            i = i + 1;
        }
        out
    }

    /// What to send to submit an order: the request and the fields of its form.
    pub fn submit_order(&self, order: &Order) -> (r: Result<(Request, Vec<Field>), TradierError>)
        ensures
            if order@.legs.len() == 0 {
                r matches Err(e) && e@ == TradierFault::NoLegs
            } else {
                &&& r matches Ok(sent)
                &&& sent.0@ == (RequestView {
                    method: Method::Post,
                    url: self.base() + "/accounts/"@ + self.account() + "/orders"@,
                    headers: self.standing_headers(),
                })
                &&& field_views(sent.1@) == order_form(order@)
            },
    {
        if order.legs.len() == 0 {
            return Err(TradierError::NoLegs);
        }
        let request: Request = self.request(Method::Post, "/orders");
        let form: Vec<Field> = if order.legs.len() == 1 {
            TradierBroker::submit_single(&order.legs[0])
        } else {
            TradierBroker::submit_multileg(&order.legs)
        };
        Ok((request, form))
    }

    /// What a reply to an order means, given what was read out of it.
    pub fn order_named(
        success: bool,
        status: &str,
        shown: String,
        fault: Option<String>,
        order_id: Option<u64>,
    ) -> (r: Result<String, TradierError>)
        ensures
            match order_reply(success, status@, shown@, text::maybe(fault), order_id) {
                Ok(name) => r matches Ok(s) && s@ == name,
                Err(f) => r matches Err(e) && e@ == f,
            },
    {
        if !success {
            let fault: String = match fault {
                Some(f) => f,
                None => "unknown error".to_string(),
            };
            return Err(TradierError::Refused { status: status.to_string(), fault });
        }
        match order_id {
            Some(id) => Ok(text::decimal_text(id)),
            None => Err(TradierError::NoOrderId { shown }),
        }
    }

    /// What a reply to an order means.
    pub fn parse_order_response(success: bool, status: &str, body: &str) -> (r: Result<
        String,
        TradierError,
    >)
        ensures
            match json_parsed(body@) {
                Some(nodes) => match order_reply(
                    success,
                    status@,
                    json_shown(body@),
                    text_below(below(nodes, "fault"@), "faultstring"@),
                    count_below(below(nodes, "order"@), "id"@),
                ) {
                    Ok(name) => r matches Ok(s) && s@ == name,
                    Err(f) => r matches Err(e) && e@ == f,
                },
                None => r matches Err(e) && e@ == TradierFault::NotJson,
            },
    {
        let fault: Option<String> = match read_inner_text(body, "fault", "faultstring") {
            Ok(fault) => fault,
            Err(_) => {
                return Err(TradierError::NotJson);
            },
        };
        let order_id: Option<u64> = match read_inner_count(body, "order", "id") {
            Ok(id) => id,
            Err(_) => {
                return Err(TradierError::NotJson);
            },
        };
        let shown: String = match json_debug(body) {
            Some(shown) => shown,
            None => {
                return Err(TradierError::NotJson);
            },
        };
        TradierBroker::order_named(success, status, shown, fault, order_id)
    }

    /// What to send to cancel an order. Whatever the reply is, the request counts as made.
    pub fn cancel_order(&self, broker_id: &str) -> (r: Request)
        ensures
            r@ == (RequestView {
                method: Method::Delete,
                url: self.base() + "/accounts/"@ + self.account() + ("/orders/"@ + broker_id@),
                headers: self.standing_headers(),
            }),
    {
        let mut path: String = "/orders/".to_string();
        path.append(broker_id);
        self.request(Method::Delete, path.as_str())
    }

    /// What to send to ask for the state of an order.
    pub fn get_status(&self, broker_id: &str) -> (r: Request)
        ensures
            r@ == (RequestView {
                method: Method::Get,
                url: self.base() + "/accounts/"@ + self.account() + ("/orders/"@ + broker_id@),
                headers: self.standing_headers(),
            }),
    {
        let mut path: String = "/orders/".to_string();
        path.append(broker_id);
        self.request(Method::Get, path.as_str())
    }

    /// The state that the brokerage calls by a word.
    pub fn status_named(word: &str) -> (r: OrderStatus)
        ensures
            r == status_of(word@),
    {
        if same(word, "open") || same(word, "partially_filled") {
            OrderStatus::Submitted
        } else if same(word, "filled") {
            OrderStatus::Filled
        } else if same(word, "canceled") || same(word, "expired") {
            OrderStatus::Cancelled
        } else if same(word, "rejected") {
            OrderStatus::Rejected
        } else {
            OrderStatus::Pending
        }
    }

    /// What to send to ask for the buying power.
    pub fn account_buying_power(&self) -> (r: Request)
        ensures
            r@ == (RequestView {
                method: Method::Get,
                url: self.base() + "/accounts/"@ + self.account() + "/balances"@,
                headers: self.standing_headers(),
            }),
    {
        self.request(Method::Get, "/balances")
    }

    /// The buying power for options that a reply reports; zero, if it reports none.
    pub fn read_buying_power(body: &str) -> (r: Result<Double, NotJson>)
        ensures
            match json_parsed(body@) {
                Some(nodes) => r == Ok::<_, NotJson>(
                    or_zero(number_below(below(nodes, "balances"@), "option_buying_power"@)),
                ),
                None => r is Err,
            },
    {
        match read_inner_number(body, "balances", "option_buying_power") {
            Ok(x) => Ok(value_or_zero(x)),
            Err(e) => Err(e),
        }
    }
}

} // verus!
