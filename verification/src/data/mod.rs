//! Market events, in the form that every feed delivers them.

pub mod databento;
pub mod feed;
pub mod laws;
pub mod thetadata;

use crate::num::double::Double;
use crate::outside::Timestamp;
use vstd::prelude::*;
use vstd::std_specs::convert::TryFromSpecImpl;

verus! {

#[derive(Clone, Copy, Debug, PartialEq, Eq, Structural)]
pub enum OptionRight {
    Call,
    Put,
}

#[derive(Clone, Copy, Debug, PartialEq, Eq, Structural)]
pub enum Side {
    Bid,
    Ask,
    Neither,
}

#[derive(Clone, Copy, Debug, PartialEq, Eq, Structural)]
pub enum MBOAction {
    Add,
    Cancel,
    Modify,
    Trade,
    Fill,
    Clear,
}

/// A code that no market event has.
#[derive(Clone, Copy, Debug, PartialEq, Eq, Structural)]
pub enum CodeError {
    UnknownAction(char),
    UnknownSide(char),
}

impl CodeError {
    pub open spec fn text(self) -> Seq<char> {
        match self {
            CodeError::UnknownAction(c) => "Unknown MBO action: "@.push(c),
            CodeError::UnknownSide(c) => "Unknown side: "@.push(c),
        }
    }

    pub fn message(&self) -> (r: String)
        ensures
            r@ == self.text(),
    {
        match self {
            CodeError::UnknownAction(c) => {
                let mut out: String = "Unknown MBO action: ".to_string();
                out.push(*c);
                out
            },
            CodeError::UnknownSide(c) => {
                let mut out: String = "Unknown side: ".to_string();
                out.push(*c);
                out
            },
        }
    }
}

/// The action that a feed writes as one character.
pub open spec fn action_of(c: char) -> Result<MBOAction, CodeError> {
    if c == 'A' {
        Ok(MBOAction::Add)
    } else if c == 'C' {
        Ok(MBOAction::Cancel)
    } else if c == 'M' {
        Ok(MBOAction::Modify)
    } else if c == 'T' {
        Ok(MBOAction::Trade)
    } else if c == 'F' {
        Ok(MBOAction::Fill)
    } else if c == 'R' {
        Ok(MBOAction::Clear)
    } else {
        Err(CodeError::UnknownAction(c))
    }
}

impl TryFrom<char> for MBOAction {
    type Error = CodeError;

    fn try_from(c: char) -> (r: Result<MBOAction, CodeError>) {
        match c {
            'A' => Ok(MBOAction::Add),
            'C' => Ok(MBOAction::Cancel),
            'M' => Ok(MBOAction::Modify),
            'T' => Ok(MBOAction::Trade),
            'F' => Ok(MBOAction::Fill),
            'R' => Ok(MBOAction::Clear),
            _ => Err(CodeError::UnknownAction(c)),
        }
    }
}

impl TryFromSpecImpl<char> for MBOAction {
    open spec fn obeys_try_from_spec() -> bool {
        true
    }

    open spec fn try_from_spec(c: char) -> Result<MBOAction, CodeError> {
        action_of(c)
    }
}

/// The side that a feed writes as one character.
pub open spec fn side_of(c: char) -> Result<Side, CodeError> {
    if c == 'B' {
        Ok(Side::Bid)
    } else if c == 'A' {
        Ok(Side::Ask)
    } else if c == 'N' || c == 'Z' {
        Ok(Side::Neither)
    } else {
        Err(CodeError::UnknownSide(c))
    }
}

impl TryFrom<char> for Side {
    type Error = CodeError;

    fn try_from(c: char) -> (r: Result<Side, CodeError>) {
        match c {
            'B' => Ok(Side::Bid),
            'A' => Ok(Side::Ask),
            'N' | 'Z' => Ok(Side::Neither),
            _ => Err(CodeError::UnknownSide(c)),
        }
    }
}

impl TryFromSpecImpl<char> for Side {
    open spec fn obeys_try_from_spec() -> bool {
        true
    }

    open spec fn try_from_spec(c: char) -> Result<Side, CodeError> {
        side_of(c)
    }
}

/// A quote of an option with its Greeks.
pub struct OptionQuoteEvent {
    pub ts: Timestamp,
    pub root: String,
    /// As `YYYYMMDD`.
    pub expiration: String,
    pub strike: Double,
    pub right: OptionRight,
    pub bid: Double,
    pub ask: Double,
    pub bid_size: u32,
    pub ask_size: u32,
    pub underlying_price: Double,
    pub implied_vol: Double,
    pub delta: Double,
    pub theta: Double,
    pub vega: Double,
    pub rho: Double,
    pub gamma: Double,
    pub vanna: Double,
    pub charm: Double,
    pub vomma: Double,
    pub veta: Double,
}

pub struct FuturesTradeEvent {
    /// Nanoseconds since the start of 1970.
    pub ts_ns: i64,
    pub instrument_id: u64,
    pub raw_symbol: String,
    pub price: Double,
    pub size: u64,
    pub side: Side,
    pub sequence: u64,
}

/// Best bid and ask of a futures contract.
#[derive(Clone, Copy, Debug, PartialEq, Eq, Structural)]
pub struct FuturesMBP1Event {
    pub ts_ns: i64,
    pub instrument_id: u64,
    pub bid_px: Double,
    pub ask_px: Double,
    pub bid_sz: u32,
    pub ask_sz: u32,
    /// Order flow imbalance: growth of the bid size less growth of the ask size.
    pub ofi: i64,
    pub sequence: u64,
}

/// A single order in the book, as historical data has it.
#[derive(Clone, Copy, Debug, PartialEq, Eq, Structural)]
pub struct FuturesMBOEvent {
    pub ts_ns: i64,
    pub instrument_id: u64,
    pub order_id: u64,
    pub price: Double,
    pub size: u64,
    pub side: Side,
    pub action: MBOAction,
    pub sequence: u64,
}

pub enum MarketEvent {
    OptionQuote(OptionQuoteEvent),
    FuturesTrade(FuturesTradeEvent),
    FuturesMBP1(FuturesMBP1Event),
    FuturesMBO(FuturesMBOEvent),
}

} // verus!
