//! The Alpaca brokerage.

use crate::http::{field, field_views, Field, Method, Request, RequestView};
use crate::num::format::fixed;
use crate::orders::{
    leg_views, LegView, Order, OrderLeg, OrderSide, OrderStatus, OrderType, OrderView, TimeInForce,
};
use crate::outside::{json_parsed, uuid_text, uuid_to_text};
use crate::reply::{read_text, text_below, NotJson};
use crate::text;
use crate::text::{decimal, maybe, same};
use vstd::prelude::*;

verus! {

pub const BASE_PAPER: &'static str = "https://paper-api.alpaca.markets/v2";

pub const BASE_LIVE: &'static str = "https://api.alpaca.markets/v2";

pub struct AlpacaBroker {
    base_url: String,
    key_id: String,
    secret: String,
}

/// A leg as the brokerage wants it. Fields without a value are left out.
#[derive(Debug)]
pub struct LegBody {
    pub symbol: String,
    pub qty: String,
    pub side: String,
    pub order_type: String,
    pub limit_price: Option<String>,
    pub stop_price: Option<String>,
}

/// What a leg body says.
pub struct LegBodyView {
    pub symbol: Seq<char>,
    pub qty: Seq<char>,
    pub side: Seq<char>,
    pub order_type: Seq<char>,
    pub limit_price: Option<Seq<char>>,
    pub stop_price: Option<Seq<char>>,
}

impl View for LegBody {
    type V = LegBodyView;

    open spec fn view(&self) -> LegBodyView {
        LegBodyView {
            symbol: self.symbol@,
            qty: self.qty@,
            side: self.side@,
            order_type: self.order_type@,
            limit_price: maybe(self.limit_price),
            stop_price: maybe(self.stop_price),
        }
    }
}

/// An order as the brokerage wants it.
#[derive(Debug)]
pub enum OrderBody {
    /// The fields of the leg and those of the order, side by side.
    Single { leg: LegBody, time_in_force: String, client_order_id: String },
    /// A list of legs in an order of type `order_type`.
    Multi {
        order_type: String,
        time_in_force: String,
        client_order_id: String,
        legs: Vec<LegBody>,
    },
}

/// What an order body says.
pub enum OrderBodyView {
    Single { leg: LegBodyView, time_in_force: Seq<char>, client_order_id: Seq<char> },
    Multi {
        order_type: Seq<char>,
        time_in_force: Seq<char>,
        client_order_id: Seq<char>,
        legs: Seq<LegBodyView>,
    },
}

impl View for OrderBody {
    type V = OrderBodyView;

    open spec fn view(&self) -> OrderBodyView {
        match self {
            OrderBody::Single { leg, time_in_force, client_order_id } => OrderBodyView::Single {
                leg: leg@,
                time_in_force: time_in_force@,
                client_order_id: client_order_id@,
            },
            OrderBody::Multi { order_type, time_in_force, client_order_id, legs } => {
                OrderBodyView::Multi {
                    order_type: order_type@,
                    time_in_force: time_in_force@,
                    client_order_id: client_order_id@,
                    legs: legs@.map_values(|l: LegBody| l@),
                }
            },
        }
    }
}

pub open spec fn side_word(side: OrderSide) -> Seq<char> {
    match side {
        OrderSide::Buy => "buy"@,
        OrderSide::Sell => "sell"@,
    }
}

pub open spec fn type_word(t: OrderType) -> Seq<char> {
    match t {
        OrderType::Market => "market"@,
        OrderType::Limit => "limit"@,
        OrderType::Stop => "stop"@,
        OrderType::StopLimit => "stop_limit"@,
    }
}

pub open spec fn tif_word(tif: TimeInForce) -> Seq<char> {
    match tif {
        TimeInForce::Day => "day"@,
        TimeInForce::GTC => "gtc"@,
        TimeInForce::IOC => "ioc"@,
        TimeInForce::FOK => "fok"@,
    }
}

pub open spec fn leg_body(leg: LegView) -> LegBodyView {
    LegBodyView {
        symbol: leg.symbol,
        qty: decimal(leg.quantity as nat),
        side: side_word(leg.side),
        order_type: type_word(leg.order_type),
        limit_price: match leg.limit_price {
            Some(p) => Some(fixed(p, 4)),
            None => None,
        },
        stop_price: match leg.stop_price {
            Some(p) => Some(fixed(p, 4)),
            None => None,
        },
    }
}

/// The body of an order: that of its leg if there is one, a list of legs otherwise.
pub open spec fn order_body(o: OrderView) -> OrderBodyView {
    if o.legs.len() == 1 {
        OrderBodyView::Single {
            leg: leg_body(o.legs[0]),
            time_in_force: tif_word(o.tif),
            client_order_id: uuid_text(o.id),
        }
    } else {
        OrderBodyView::Multi {
            order_type: "mlo"@,
            time_in_force: tif_word(o.tif),
            client_order_id: uuid_text(o.id),
            legs: o.legs.map_values(|l: LegView| leg_body(l)),
        }
    }
}

/// What the brokerage calls the states of an order.
pub open spec fn status_of(word: Seq<char>) -> OrderStatus {
    if word == "new"@ || word == "accepted"@ || word == "pending_new"@ {
        OrderStatus::Submitted
    } else if word == "partially_filled"@ {
        OrderStatus::PartiallyFilled
    } else if word == "filled"@ {
        OrderStatus::Filled
    } else if word == "canceled"@ || word == "expired"@ {
        OrderStatus::Cancelled
    } else if word == "rejected"@ || word == "suspended"@ {
        OrderStatus::Rejected
    } else {
        OrderStatus::Pending
    }
}

/// Why the brokerage did not do what it was asked.
#[derive(Debug)]
pub enum AlpacaError {
    Submit { status: String, body: String },
    Cancel { status: String },
}

impl AlpacaError {
    pub open spec fn text(self) -> Seq<char> {
        match self {
            AlpacaError::Submit { status, body } => {
                "Alpaca submit_order failed ["@ + status@ + "]: "@ + body@
            },
            AlpacaError::Cancel { status } => "Alpaca cancel_order failed: "@ + status@,
        }
    }

    pub fn message(&self) -> (r: String)
        ensures
            r@ == self.text(),
    {
        match self {
            AlpacaError::Submit { status, body } => {
                let mut out: String = "Alpaca submit_order failed [".to_string();
                out.append(status.as_str());
                out.append("]: ");
                out.append(body.as_str());
                out
            },
            AlpacaError::Cancel { status } => {
                let mut out: String = "Alpaca cancel_order failed: ".to_string();
                out.append(status.as_str());
                out
            },
        }
    }
}

impl AlpacaBroker {
    pub closed spec fn base(self) -> Seq<char> {
        self.base_url@
    }

    /// The headers that identify the account.
    pub closed spec fn credentials(self) -> Seq<(Seq<char>, Seq<char>)> {
        seq![("APCA-API-KEY-ID"@, self.key_id@), ("APCA-API-SECRET-KEY"@, self.secret@)]
    }

    pub fn new(key_id: String, secret: String, paper: bool) -> (r: AlpacaBroker)
        ensures
            r.base() == (if paper {
                BASE_PAPER@
            } else {
                BASE_LIVE@
            }),
            r.credentials() == seq![
                ("APCA-API-KEY-ID"@, key_id@),
                ("APCA-API-SECRET-KEY"@, secret@),
            ],
    {
        let base_url: String = if paper {
            BASE_PAPER.to_string()
        } else {
            BASE_LIVE.to_string()
        };
        AlpacaBroker { base_url, key_id, secret }
    }

    fn headers(&self) -> (r: Vec<Field>)
        ensures
            field_views(r@) == self.credentials(),
    {
        let r: Vec<Field> = vec![
            field("APCA-API-KEY-ID", self.key_id.as_str()),
            field("APCA-API-SECRET-KEY", self.secret.as_str()),
        ];
        assert(field_views(r@) =~= self.credentials());
        r
    }

    fn request(&self, method: Method, path: &str) -> (r: Request)
        ensures
            r@ == (RequestView {
                method,
                url: self.base() + path@,
                headers: self.credentials(),
            }),
    {
        let mut url: String = self.base_url.clone();
        url.append(path);
        Request { method, url, headers: self.headers() }
    }

    pub fn leg_to_json(leg: &OrderLeg) -> (r: LegBody)
        ensures
            r@ == leg_body(leg@),
    {
        let side: &str = match leg.side {
            OrderSide::Buy => "buy",
            OrderSide::Sell => "sell",
        };
        let order_type: &str = match leg.order_type {
            OrderType::Market => "market",
            OrderType::Limit => "limit",
            OrderType::Stop => "stop",
            OrderType::StopLimit => "stop_limit",
        };
        let limit_price: Option<String> = match leg.limit_price {
            Some(p) => Some(p.fixed_text(4)),
            None => None,
        };
        let stop_price: Option<String> = match leg.stop_price {
            Some(p) => Some(p.fixed_text(4)),
            None => None,
        };
        LegBody {
            symbol: leg.symbol.clone(),
            qty: text::decimal_text(leg.quantity),
            side: side.to_string(),
            order_type: order_type.to_string(),
            limit_price,
            stop_price,
        }
    }

    pub fn tif_str(tif: TimeInForce) -> (r: &'static str)
        ensures
            r@ == tif_word(tif),
    {
        match tif {
            TimeInForce::Day => "day",
            TimeInForce::GTC => "gtc",
            TimeInForce::IOC => "ioc",
            TimeInForce::FOK => "fok",
        }
    }

    /// What to send to submit an order.
    pub fn submit_order(&self, order: &Order) -> (r: (Request, OrderBody))
        ensures
            r.0@ == (RequestView {
                method: Method::Post,
                url: self.base() + "/orders"@,
                headers: self.credentials(),
            }),
            r.1@ == order_body(order@),
    {
        let request: Request = self.request(Method::Post, "/orders");
        let time_in_force: String = AlpacaBroker::tif_str(order.tif).to_string();
        let client_order_id: String = uuid_to_text(order.id);
        if order.legs.len() == 1 {
            let leg: LegBody = AlpacaBroker::leg_to_json(&order.legs[0]);
            return (request, OrderBody::Single { leg, time_in_force, client_order_id });
        }
        let ghost all: Seq<LegView> = leg_views(order.legs@);
        let ghost wanted: Seq<LegBodyView> = all.map_values(|l: LegView| leg_body(l));
        let mut legs: Vec<LegBody> = Vec::new();
        let mut i: usize = 0;
        while i < order.legs.len()
            invariant
                i <= order.legs.len(),
                all == leg_views(order.legs@),
                wanted == all.map_values(|l: LegView| leg_body(l)),
                legs@.map_values(|l: LegBody| l@) == wanted.take(i as int),
            decreases order.legs.len() - i,
        {
            let ghost before: Seq<LegBody> = legs@;
            let leg: LegBody = AlpacaBroker::leg_to_json(&order.legs[i]);
            legs.push(leg);
            assert(legs@.map_values(|l: LegBody| l@) =~= before.map_values(
                |l: LegBody| l@,
            ).push(leg@));
            assert(wanted.take(i + 1) =~= wanted.take(i as int).push(leg@));
            i = i + 1;
        }
        assert(wanted.take(i as int) == wanted);
        let order_type: String = "mlo".to_string();
        (request, OrderBody::Multi { order_type, time_in_force, client_order_id, legs })
    }

    /// Lets the reply to an order through if the brokerage reported success.
    pub fn submitted(success: bool, status: &str, body: &str) -> (r: Result<(), AlpacaError>)
        ensures
            match r {
                Ok(()) => success,
                Err(e) => !success && (e matches AlpacaError::Submit { status: s, body: b } && s@
                    == status@ && b@ == body@),
            },
    {
        if success {
            Ok(())
        } else {
            Err(AlpacaError::Submit { status: status.to_string(), body: body.to_string() })
        }
    }

    /// What to send to cancel an order.
    pub fn cancel_order(&self, broker_id: &str) -> (r: Request)
        ensures
            r@ == (RequestView {
                method: Method::Delete,
                url: self.base() + ("/orders/"@ + broker_id@),
                headers: self.credentials(),
            }),
    {
        let mut path: String = "/orders/".to_string();
        path.append(broker_id);
        self.request(Method::Delete, path.as_str())
    }

    /// What the reply to a cancellation means.
    pub fn cancelled(success: bool, code: u16, status: &str) -> (r: Result<(), AlpacaError>)
        ensures
            match r {
                Ok(()) => success || code == 204,
                Err(e) => !success && code != 204 && (e matches AlpacaError::Cancel { status: s }
                    && s@ == status@),
            },
    {
        if !success && code != 204 {
            Err(AlpacaError::Cancel { status: status.to_string() })
        } else {
            Ok(())
        }
    }

    /// What to send to ask for the state of an order.
    pub fn get_status(&self, broker_id: &str) -> (r: Request)
        ensures
            r@ == (RequestView {
                method: Method::Get,
                url: self.base() + ("/orders/"@ + broker_id@),
                headers: self.credentials(),
            }),
    {
        let mut path: String = "/orders/".to_string();
        path.append(broker_id);
        self.request(Method::Get, path.as_str())
    }

    /// The state that the brokerage calls by a word.
    pub fn status_named(word: &str) -> (r: OrderStatus)
        ensures
            r == status_of(word@),
    {
        if same(word, "new") || same(word, "accepted") || same(word, "pending_new") {
            OrderStatus::Submitted
        } else if same(word, "partially_filled") {
            OrderStatus::PartiallyFilled
        } else if same(word, "filled") {
            OrderStatus::Filled
        } else if same(word, "canceled") || same(word, "expired") {
            OrderStatus::Cancelled
        } else if same(word, "rejected") || same(word, "suspended") {
            OrderStatus::Rejected
        } else {
            OrderStatus::Pending
        }
    }

    /// The state that a reply reports.
    pub fn read_status(body: &str) -> (r: Result<OrderStatus, NotJson>)
        ensures
            match json_parsed(body@) {
                Some(nodes) => r == Ok::<_, NotJson>(
                    match text_below(nodes, "status"@) {
                        Some(word) => status_of(word),
                        None => status_of("unknown"@),
                    },
                ),
                None => r is Err,
            },
    {
        match read_text(body, "status") {
            Ok(Some(word)) => Ok(AlpacaBroker::status_named(word.as_str())),
            Ok(None) => Ok(AlpacaBroker::status_named("unknown")),
            Err(e) => Err(e),
        }
    }

    /// What to send to ask for the buying power.
    pub fn account_buying_power(&self) -> (r: Request)
        ensures
            r@ == (RequestView {
                method: Method::Get,
                url: self.base() + "/account"@,
                headers: self.credentials(),
            }),
    {
        self.request(Method::Get, "/account")
    }

    /// The buying power that a reply reports, as the text of a number.
    pub fn read_buying_power(body: &str) -> (r: Result<Option<String>, NotJson>)
        ensures
            match json_parsed(body@) {
                Some(nodes) => r matches Ok(t) && maybe(t) == text_below(nodes, "buying_power"@),
                None => r is Err,
            },
    {
        read_text(body, "buying_power")
    }
}

} // verus!
