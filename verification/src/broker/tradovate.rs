//! The Tradovate brokerage, which trades futures.
//!
//! A session holds an access token, and a ticket to renew it without sending the password.

use crate::http::{field, field_views, Field, Method, Request, RequestView};
use crate::num::double::{or_zero, value_or_zero, Double};
use crate::orders::persistence::VERSION;
use crate::orders::{
    Order, OrderLeg, OrderSide, OrderStatus, OrderType, OrderView, TimeInForce,
};
use crate::outside::json_parsed;
use crate::reply::{number_below, read_number, read_text, text_below, NotJson};
use crate::text;
use crate::text::{maybe, parsed_integer, same, signed_decimal};
use vstd::prelude::*;

verus! {

pub const BASE_DEMO: &'static str = "https://demo.tradovate.com/v1";

pub const BASE_LIVE: &'static str = "https://live.tradovate.com/v1";

/// Seconds between renewals. Tokens live about a day; they are renewed an hour before.
pub const RENEWAL_SECONDS: u64 = 82_800;

/// A session with the brokerage.
pub struct TradovateBroker {
    base_url: String,
    username: String,
    password: String,
    cid: i64,
    secret: String,
    device_id: String,
    access_token: String,
    p_token: Option<String>,
    p_time: Option<String>,
    account_id: i64,
    account_name: String,
}

/// Who logs in, and where.
pub struct LoginView {
    pub base_url: Seq<char>,
    pub username: Seq<char>,
    pub password: Seq<char>,
    pub cid: i64,
    pub secret: Seq<char>,
    pub device_id: Seq<char>,
}

/// What the brokerage has handed out.
pub struct TokensView {
    pub access_token: Seq<char>,
    pub p_token: Option<Seq<char>>,
    pub p_time: Option<Seq<char>>,
}

/// The account that orders are for.
pub struct AccountView {
    pub id: i64,
    pub name: Seq<char>,
}

/// A login, as it is sent.
#[derive(Debug)]
pub struct AuthRequest {
    pub name: String,
    pub password: String,
    pub app_id: String,
    pub app_version: String,
    pub cid: i64,
    pub sec: String,
    pub device_id: String,
}

/// What a login says.
pub struct AuthRequestView {
    pub name: Seq<char>,
    pub password: Seq<char>,
    pub app_id: Seq<char>,
    pub app_version: Seq<char>,
    pub cid: i64,
    pub sec: Seq<char>,
    pub device_id: Seq<char>,
}

impl View for AuthRequest {
    type V = AuthRequestView;

    open spec fn view(&self) -> AuthRequestView {
        AuthRequestView {
            name: self.name@,
            password: self.password@,
            app_id: self.app_id@,
            app_version: self.app_version@,
            cid: self.cid,
            sec: self.sec@,
            device_id: self.device_id@,
        }
    }
}

/// The reply to a login or a renewal.
#[derive(Debug)]
pub struct AuthResponse {
    pub access_token: Option<String>,
    pub user_status: Option<String>,
    pub p_token: Option<String>,
    pub p_time: Option<String>,
}

/// A renewal, as it is sent.
#[derive(Debug)]
pub struct RenewRequest {
    pub p_ticket: String,
    pub p_time: String,
    pub p_captcha: bool,
}

/// An order, as it is sent. Fields without a value are left out.
#[derive(Debug)]
pub struct PlaceOrderRequest {
    pub account_spec: String,
    pub account_id: i64,
    pub action: String,
    pub symbol: String,
    pub order_qty: u64,
    pub order_type: String,
    pub price: Option<Double>,
    pub stop_price: Option<Double>,
    pub time_in_force: String,
    pub text: Option<String>,
}

/// What an order that is sent says.
pub struct PlaceOrderView {
    pub account_spec: Seq<char>,
    pub account_id: i64,
    pub action: Seq<char>,
    pub symbol: Seq<char>,
    pub order_qty: u64,
    pub order_type: Seq<char>,
    pub price: Option<Double>,
    pub stop_price: Option<Double>,
    pub time_in_force: Seq<char>,
    pub text: Option<Seq<char>>,
}

impl View for PlaceOrderRequest {
    type V = PlaceOrderView;

    open spec fn view(&self) -> PlaceOrderView {
        PlaceOrderView {
            account_spec: self.account_spec@,
            account_id: self.account_id,
            action: self.action@,
            symbol: self.symbol@,
            order_qty: self.order_qty,
            order_type: self.order_type@,
            price: self.price,
            stop_price: self.stop_price,
            time_in_force: self.time_in_force@,
            text: maybe(self.text),
        }
    }
}

/// The reply to an order.
#[derive(Debug)]
pub struct PlaceOrderResponse {
    pub order_id: Option<i64>,
    pub failure_reason: Option<String>,
    pub failure_text: Option<String>,
}

/// An account of the user.
#[derive(Debug)]
pub struct AccountEntry {
    pub id: i64,
    pub name: String,
}

/// Why the brokerage cannot be used, or did not accept an order.
#[derive(Debug)]
pub enum TradovateError {
    NotActive { status: String },
    NoAccessToken,
    NoAccounts,
    NoLegs,
    SeveralLegs,
    Rejected { reason: String, text: String },
    NoOrderId,
    BadBrokerId { broker_id: String },
}

/// What a [`TradovateError`] says.
pub enum TradovateFault {
    NotActive { status: Seq<char> },
    NoAccessToken,
    NoAccounts,
    NoLegs,
    SeveralLegs,
    Rejected { reason: Seq<char>, text: Seq<char> },
    NoOrderId,
    BadBrokerId { broker_id: Seq<char> },
}

impl View for TradovateError {
    type V = TradovateFault;

    open spec fn view(&self) -> TradovateFault {
        match self {
            TradovateError::NotActive { status } => TradovateFault::NotActive { status: status@ },
            TradovateError::NoAccessToken => TradovateFault::NoAccessToken,
            TradovateError::NoAccounts => TradovateFault::NoAccounts,
            TradovateError::NoLegs => TradovateFault::NoLegs,
            TradovateError::SeveralLegs => TradovateFault::SeveralLegs,
            TradovateError::Rejected { reason, text } => TradovateFault::Rejected {
                reason: reason@,
                text: text@,
            },
            TradovateError::NoOrderId => TradovateFault::NoOrderId,
            TradovateError::BadBrokerId { broker_id } => TradovateFault::BadBrokerId {
                broker_id: broker_id@,
            },
        }
    }
}

impl TradovateFault {
    pub open spec fn text(self) -> Seq<char> {
        match self {
            TradovateFault::NotActive { status } => {
                "Tradovate auth: unexpected userStatus = "@ + status
            },
            TradovateFault::NoAccessToken => "Tradovate auth: missing accessToken"@,
            TradovateFault::NoAccounts => "Tradovate: no accounts found"@,
            TradovateFault::NoLegs => "Tradovate: order has no legs"@,
            TradovateFault::SeveralLegs => {
                "Tradovate: multi-leg futures not yet supported — use spread symbol"@
            },
            TradovateFault::Rejected { reason, text } => {
                "Tradovate order rejected: "@ + reason + " — "@ + text
            },
            TradovateFault::NoOrderId => "Tradovate: missing orderId in response"@,
            TradovateFault::BadBrokerId { broker_id } => {
                "Tradovate: invalid broker_id '"@ + broker_id + "'"@
            },
        }
    }
}

impl TradovateError {
    pub fn message(&self) -> (r: String)
        ensures
            r@ == self@.text(),
    {
        match self {
            TradovateError::NotActive { status } => {
                let mut out: String = "Tradovate auth: unexpected userStatus = ".to_string();
                out.append(status.as_str());
                out
            },
            TradovateError::NoAccessToken => "Tradovate auth: missing accessToken".to_string(),
            TradovateError::NoAccounts => "Tradovate: no accounts found".to_string(),
            TradovateError::NoLegs => "Tradovate: order has no legs".to_string(),
            TradovateError::SeveralLegs => {
                "Tradovate: multi-leg futures not yet supported — use spread symbol".to_string()
            },
            TradovateError::Rejected { reason, text } => {
                let mut out: String = "Tradovate order rejected: ".to_string();
                out.append(reason.as_str());
                out.append(" — ");
                out.append(text.as_str());
                out
            },
            TradovateError::NoOrderId => "Tradovate: missing orderId in response".to_string(),
            TradovateError::BadBrokerId { broker_id } => {
                let mut out: String = "Tradovate: invalid broker_id '".to_string();
                out.append(broker_id.as_str());
                out.append("'");
                out
            },
        }
    }
}

pub open spec fn tif_word(tif: TimeInForce) -> Seq<char> {
    match tif {
        TimeInForce::Day => "Day"@,
        TimeInForce::GTC => "GTC"@,
        TimeInForce::IOC => "IOC"@,
        TimeInForce::FOK => "FOK"@,
    }
}

pub open spec fn side_word(side: OrderSide) -> Seq<char> {
    match side {
        OrderSide::Buy => "Buy"@,
        OrderSide::Sell => "Sell"@,
    }
}

pub open spec fn type_word(t: OrderType) -> Seq<char> {
    match t {
        OrderType::Market => "Market"@,
        OrderType::Limit => "Limit"@,
        OrderType::Stop => "Stop"@,
        OrderType::StopLimit => "StopLimit"@,
    }
}

/// An order with one leg, as it is sent for an account.
pub open spec fn place_order(account: AccountView, o: OrderView) -> PlaceOrderView {
    let leg = o.legs[0];
    PlaceOrderView {
        account_spec: account.name,
        account_id: account.id,
        action: side_word(leg.side),
        symbol: leg.symbol,
        order_qty: leg.quantity,
        order_type: type_word(leg.order_type),
        price: leg.limit_price,
        stop_price: leg.stop_price,
        time_in_force: tif_word(o.tif),
        text: Some("strategy:"@ + o.strategy_id),
    }
}

/// What a reply to an order means: the name of the order, or why there is none.
pub open spec fn order_reply(
    order_id: Option<i64>,
    reason: Option<Seq<char>>,
    text: Option<Seq<char>>,
) -> Result<Seq<char>, TradovateFault> {
    if reason is Some && reason->0 != "None"@ {
        Err(
            TradovateFault::Rejected {
                reason: reason->0,
                text: match text {
                    Some(t) => t,
                    None => Seq::empty(),
                },
            },
        )
    } else {
        match order_id {
            Some(id) => Ok(signed_decimal(id as int)),
            None => Err(TradovateFault::NoOrderId),
        }
    }
}

/// What the brokerage calls the states of an order.
pub open spec fn status_of(word: Seq<char>) -> OrderStatus {
    if word == "Working"@ || word == "PendingNew"@ || word == "Triggered"@ {
        OrderStatus::Submitted
    } else if word == "Canceled"@ || word == "Expired"@ {
        OrderStatus::Cancelled
    } else if word == "Filled"@ {
        OrderStatus::Filled
    } else if word == "Rejected"@ {
        OrderStatus::Rejected
    } else {
        OrderStatus::Pending
    }
}

/// What a reply to a login means: the tokens that it hands out, or why there are none.
pub open spec fn login_reply(resp: AuthResponse) -> Result<TokensView, TradovateFault> {
    let status = match maybe(resp.user_status) {
        Some(s) => s,
        None => "unknown"@,
    };
    if status != "Active"@ {
        Err(TradovateFault::NotActive { status })
    } else {
        match maybe(resp.access_token) {
            Some(token) => Ok(tokens_of(token, resp)),
            None => Err(TradovateFault::NoAccessToken),
        }
    }
}

pub open spec fn tokens_of(token: Seq<char>, resp: AuthResponse) -> TokensView {
    TokensView {
        access_token: token,
        p_token: maybe(resp.p_token),
        p_time: maybe(resp.p_time),
    }
}

impl TradovateBroker {
    pub closed spec fn login(self) -> LoginView {
        LoginView {
            base_url: self.base_url@,
            username: self.username@,
            password: self.password@,
            cid: self.cid,
            secret: self.secret@,
            device_id: self.device_id@,
        }
    }

    pub closed spec fn tokens(self) -> TokensView {
        TokensView {
            access_token: self.access_token@,
            p_token: maybe(self.p_token),
            p_time: maybe(self.p_time),
        }
    }

    pub closed spec fn account(self) -> AccountView {
        AccountView { id: self.account_id, name: self.account_name@ }
    }

    /// A request that carries the access token.
    pub open spec fn authorized(self, method: Method, path: Seq<char>) -> RequestView {
        RequestView {
            method,
            url: self.login().base_url + path,
            headers: seq![("Authorization"@, "Bearer "@ + self.tokens().access_token)],
        }
    }

    /// A session that has not logged in yet.
    pub fn connect(
        username: String,
        password: String,
        cid: i64,
        secret: String,
        device_id: String,
        demo: bool,
    ) -> (r: TradovateBroker)
        ensures
            r.login() == (LoginView {
                base_url: if demo {
                    BASE_DEMO@
                } else {
                    BASE_LIVE@
                },
                username: username@,
                password: password@,
                cid,
                secret: secret@,
                device_id: device_id@,
            }),
            r.tokens() == (TokensView {
                access_token: Seq::empty(),
                p_token: None,
                p_time: None,
            }),
            r.account() == (AccountView { id: 0, name: Seq::empty() }),
    {
        let base_url: String = if demo {
            BASE_DEMO.to_string()
        } else {
            BASE_LIVE.to_string()
        };
        let r: TradovateBroker = TradovateBroker {
            base_url,
            username,
            password,
            cid,
            secret,
            device_id,
            access_token: String::new(),
            p_token: None,
            p_time: None,
            account_id: 0,
            account_name: String::new(),
        };
        assert(r.tokens().access_token =~= Seq::empty());
        assert(r.account().name =~= Seq::empty());
        r
    }

    fn open_request(&self, path: &str) -> (r: Request)
        ensures
            r@ == (RequestView {
                method: Method::Post,
                url: self.login().base_url + path@,
                headers: Seq::empty(),
            }),
    {
        let mut url: String = self.base_url.clone();
        url.append(path);
        let headers: Vec<Field> = Vec::new();
        assert(field_views(headers@) =~= Seq::empty());
        Request { method: Method::Post, url, headers }
    }

    /// What to send to log in.
    pub fn authenticate(&self) -> (r: (Request, AuthRequest))
        ensures
            r.0@ == (RequestView {
                method: Method::Post,
                url: self.login().base_url + "/auth/accesstokenrequest"@,
                headers: Seq::empty(),
            }),
            r.1@ == (AuthRequestView {
                name: self.login().username,
                password: self.login().password,
                app_id: "ZetaField"@,
                app_version: VERSION@,
                cid: self.login().cid,
                sec: self.login().secret,
                device_id: self.login().device_id,
            }),
    {
        let body: AuthRequest = AuthRequest {
            name: self.username.clone(),
            password: self.password.clone(),
            app_id: "ZetaField".to_string(),
            app_version: VERSION.to_string(),
            cid: self.cid,
            sec: self.secret.clone(),
            device_id: self.device_id.clone(),
        };
        (self.open_request("/auth/accesstokenrequest"), body)
    }

    /// Takes the tokens out of the reply to a login.
    pub fn authenticated(&mut self, resp: AuthResponse) -> (r: Result<(), TradovateError>)
        ensures
            final(self).login() == old(self).login(),
            final(self).account() == old(self).account(),
            match login_reply(resp) {
                Ok(tokens) => r is Ok && final(self).tokens() == tokens,
                Err(fault) => (r matches Err(e) && e@ == fault) && final(self).tokens() == old(
                    self,
                ).tokens(),
            },
    {
        let status: String = match resp.user_status {
            Some(s) => s,
            None => "unknown".to_string(),
        };
        if !same(status.as_str(), "Active") {
            return Err(TradovateError::NotActive { status });
        }
        match resp.access_token {
            Some(token) => {
                self.access_token = token;
                self.p_token = resp.p_token;
                self.p_time = resp.p_time;
                Ok(())
            },
            None => Err(TradovateError::NoAccessToken),
        }
    }

    /// What to send to renew the token, if there is a ticket; without one a login is needed.
    pub fn renew(&self) -> (r: Option<(Request, RenewRequest)>)
        ensures
            match (self.tokens().p_token, self.tokens().p_time) {
                (Some(ticket), Some(time)) => {
                    &&& r matches Some(sent)
                    &&& sent.0@ == (RequestView {
                        method: Method::Post,
                        url: self.login().base_url + "/auth/renewaccesstoken"@,
                        headers: Seq::empty(),
                    })
                    &&& sent.1.p_ticket@ == ticket
                    &&& sent.1.p_time@ == time
                    &&& !sent.1.p_captcha
                },
                _ => r is None,
            },
    {
        match (&self.p_token, &self.p_time) {
            (Some(ticket), Some(time)) => {
                let body: RenewRequest = RenewRequest {
                    p_ticket: ticket.clone(),
                    p_time: time.clone(),
                    p_captcha: false,
                };
                Some((self.open_request("/auth/renewaccesstoken"), body))
            },
            _ => None,
        }
    }

    /// Takes the tokens out of the reply to a renewal. Without a token in it nothing changes,
    /// and a login is needed.
    pub fn renewed(&mut self, resp: AuthResponse) -> (r: bool)
        ensures
            final(self).login() == old(self).login(),
            final(self).account() == old(self).account(),
            r == (resp.access_token is Some),
            match maybe(resp.access_token) {
                Some(token) => final(self).tokens() == tokens_of(token, resp),
                None => final(self).tokens() == old(self).tokens(),
            },
    {
        match resp.access_token {
            Some(token) => {
                self.access_token = token;
                self.p_token = resp.p_token;
                self.p_time = resp.p_time;
                true
            },
            None => false,
        }
    }

    /// What to send to ask for the accounts.
    pub fn load_account(&self) -> (r: Request)
        ensures
            r@ == self.authorized(Method::Get, "/account/list"@),
    {
        self.get("/account/list")
    }

    /// Takes the first account of the user.
    pub fn account_loaded(&mut self, accounts: Vec<AccountEntry>) -> (r: Result<
        (),
        TradovateError,
    >)
        ensures
            final(self).login() == old(self).login(),
            final(self).tokens() == old(self).tokens(),
            if accounts.len() == 0 {
                (r matches Err(e) && e@ == TradovateFault::NoAccounts) && final(self).account()
                    == old(self).account()
            } else {
                r is Ok && final(self).account() == (AccountView {
                    id: accounts[0].id,
                    name: accounts[0].name@,
                })
            },
    {
        if accounts.len() == 0 {
            return Err(TradovateError::NoAccounts);
        }
        self.account_id = accounts[0].id;
        self.account_name = accounts[0].name.clone();
        Ok(())
    }

    pub fn bearer(&self) -> (r: String)
        ensures
            r@ == "Bearer "@ + self.tokens().access_token,
    {
        let mut out: String = "Bearer ".to_string();
        out.append(self.access_token.as_str());
        out
    }

    fn request(&self, method: Method, path: &str) -> (r: Request)
        ensures
            r@ == self.authorized(method, path@),
    {
        let mut url: String = self.base_url.clone();
        url.append(path);
        let headers: Vec<Field> = vec![field("Authorization", self.bearer().as_str())];
        assert(field_views(headers@) =~= seq![
            ("Authorization"@, "Bearer "@ + self.tokens().access_token),
        ]);
        Request { method, url, headers }
    }

    pub fn get(&self, path: &str) -> (r: Request)
        ensures
            r@ == self.authorized(Method::Get, path@),
    {
        self.request(Method::Get, path)
    }

    pub fn post(&self, path: &str) -> (r: Request)
        ensures
            r@ == self.authorized(Method::Post, path@),
    {
        self.request(Method::Post, path)
    }

    pub fn tif_str(tif: TimeInForce) -> (r: &'static str)
        ensures
            r@ == tif_word(tif),
    {
        match tif {
            TimeInForce::Day => "Day",
            TimeInForce::GTC => "GTC",
            TimeInForce::IOC => "IOC",
            TimeInForce::FOK => "FOK",
        }
    }

    /// What to send to submit an order. Only orders with one leg can be sent.
    pub fn submit_order(&self, order: &Order) -> (r: Result<
        (Request, PlaceOrderRequest),
        TradovateError,
    >)
        ensures
            if order@.legs.len() == 0 {
                r matches Err(e) && e@ == TradovateFault::NoLegs
            } else if order@.legs.len() > 1 {
                r matches Err(e) && e@ == TradovateFault::SeveralLegs
            } else {
                &&& r matches Ok(sent)
                &&& sent.0@ == self.authorized(Method::Post, "/order/placeorder"@)
                &&& sent.1@ == place_order(self.account(), order@)
            },
    {
        if order.legs.len() == 0 {
            return Err(TradovateError::NoLegs);
        }
        if order.legs.len() > 1 {
            return Err(TradovateError::SeveralLegs);
        }
        let leg: &OrderLeg = &order.legs[0];
        assert(order@.legs[0] == leg@);
        let action: &str = match leg.side {
            OrderSide::Buy => "Buy",
            OrderSide::Sell => "Sell",
        };
        let order_type: &str = match leg.order_type {
            OrderType::Market => "Market",
            OrderType::Limit => "Limit",
            OrderType::Stop => "Stop",
            OrderType::StopLimit => "StopLimit",
        };
        let mut tag: String = "strategy:".to_string();
        tag.append(order.strategy_id.as_str());
        let body: PlaceOrderRequest = PlaceOrderRequest {
            account_spec: self.account_name.clone(),
            account_id: self.account_id,
            action: action.to_string(),
            symbol: leg.symbol.clone(),
            order_qty: leg.quantity,
            order_type: order_type.to_string(),
            price: leg.limit_price,
            stop_price: leg.stop_price,
            time_in_force: TradovateBroker::tif_str(order.tif).to_string(),
            text: Some(tag),
        };
        Ok((self.post("/order/placeorder"), body))
    }

    /// What the reply to an order means.
    pub fn order_named(resp: PlaceOrderResponse) -> (r: Result<String, TradovateError>)
        ensures
            match order_reply(resp.order_id, maybe(resp.failure_reason), maybe(resp.failure_text)) {
                Ok(name) => r matches Ok(s) && s@ == name,
                Err(f) => r matches Err(e) && e@ == f,
            },
    {
        match resp.failure_reason {
            Some(reason) => {
                if !same(reason.as_str(), "None") {
                    let text: String = match resp.failure_text {
                        Some(t) => t,
                        None => String::new(),
                    };
                    assert(maybe(resp.failure_text) is None ==> text@ =~= Seq::empty());
                    return Err(TradovateError::Rejected { reason, text });
                }
            },
            None => {},
        }
        match resp.order_id {
            Some(id) => Ok(text::signed_text(id)),
            None => Err(TradovateError::NoOrderId),
        }
    }

    /// What to send to cancel an order: the request and the number of the order.
    pub fn cancel_order(&self, broker_id: &str) -> (r: Result<(Request, i64), TradovateError>)
        ensures
            match parsed_integer(broker_id@) {
                Some(id) => {
                    &&& r matches Ok(sent)
                    &&& sent.0@ == self.authorized(Method::Post, "/order/cancelorder"@)
                    &&& sent.1 == id
                },
                None => r matches Err(e) && e@ == (TradovateFault::BadBrokerId {
                    broker_id: broker_id@,
                }),
            },
    {
        match text::parse_i64(broker_id) {
            Some(id) => Ok((self.post("/order/cancelorder"), id)),
            None => Err(TradovateError::BadBrokerId { broker_id: broker_id.to_string() }),
        }
    }

    /// What to send to ask for the state of an order.
    pub fn get_status(&self, broker_id: &str) -> (r: Request)
        ensures
            r@ == self.authorized(Method::Get, "/order/"@ + broker_id@),
    {
        let mut path: String = "/order/".to_string();
        path.append(broker_id);
        self.get(path.as_str())
    }

    /// The state that the brokerage calls by a word.
    pub fn status_named(word: &str) -> (r: OrderStatus)
        ensures
            r == status_of(word@),
    {
        if same(word, "Working") || same(word, "PendingNew") || same(word, "Triggered") {
            OrderStatus::Submitted
        } else if same(word, "Canceled") || same(word, "Expired") {
            OrderStatus::Cancelled
        } else if same(word, "Filled") {
            OrderStatus::Filled
        } else if same(word, "Rejected") {
            OrderStatus::Rejected
        } else {
            OrderStatus::Pending
        }
    }

    /// The state that a reply reports.
    pub fn read_status(body: &str) -> (r: Result<OrderStatus, NotJson>)
        ensures
            match json_parsed(body@) {
                Some(nodes) => r == Ok::<_, NotJson>(
                    match text_below(nodes, "ordStatus"@) {
                        Some(word) => status_of(word),
                        None => status_of("Unknown"@),
                    },
                ),
                None => r is Err,
            },
    {
        match read_text(body, "ordStatus") {
            Ok(Some(word)) => Ok(TradovateBroker::status_named(word.as_str())),
            Ok(None) => Ok(TradovateBroker::status_named("Unknown")),
            Err(e) => Err(e),
        }
    }

    /// What to send to ask for the cash balance: the request and the number of the account.
    pub fn account_buying_power(&self) -> (r: (Request, i64))
        ensures
            r.0@ == self.authorized(Method::Post, "/cashbalance/getcashbalancesnapshot"@),
            r.1 == self.account().id,
    {
        (self.post("/cashbalance/getcashbalancesnapshot"), self.account_id)
    }

    /// The cash that a reply reports; zero, if it reports none.
    pub fn read_buying_power(body: &str) -> (r: Result<Double, NotJson>)
        ensures
            match json_parsed(body@) {
                Some(nodes) => r == Ok::<_, NotJson>(
                    or_zero(number_below(nodes, "totalCashValue"@)),
                ),
                None => r is Err,
            },
    {
        match read_number(body, "totalCashValue") {
            Ok(x) => Ok(value_or_zero(x)),
            Err(e) => Err(e),
        }
    }
}

} // verus!
