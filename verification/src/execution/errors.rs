//! Why an order cannot be built.

use crate::num::double::Double;
use crate::num::format::fixed;
use crate::orders::StrategyType;
use crate::text;
use crate::text::decimal;
use vstd::prelude::*;

verus! {

/// Why no order can be built.
#[derive(Debug)]
pub enum BuildError {
    /// The strikes that were found do not make an iron condor.
    StrikeOrder { lc: Double, sc: Double, sp: Double, lp: Double },
    /// The chain has no option for some leg.
    MissingStrikes { strategy: StrategyType, target_dte: u32 },
    NotAnOptionTrade,
    NothingToDo,
    UnknownStrategy(String),
}

/// What a [`BuildError`] says.
pub enum BuildFault {
    StrikeOrder { lc: Double, sc: Double, sp: Double, lp: Double },
    MissingStrikes { strategy: StrategyType, target_dte: u32 },
    NotAnOptionTrade,
    NothingToDo,
    UnknownStrategy(Seq<char>),
}

impl View for BuildError {
    type V = BuildFault;

    open spec fn view(&self) -> BuildFault {
        match self {
            BuildError::StrikeOrder { lc, sc, sp, lp } => BuildFault::StrikeOrder {
                lc: *lc,
                sc: *sc,
                sp: *sp,
                lp: *lp,
            },
            BuildError::MissingStrikes { strategy, target_dte } => BuildFault::MissingStrikes {
                strategy: *strategy,
                target_dte: *target_dte,
            },
            BuildError::NotAnOptionTrade => BuildFault::NotAnOptionTrade,
            BuildError::NothingToDo => BuildFault::NothingToDo,
            BuildError::UnknownStrategy(name) => BuildFault::UnknownStrategy(name@),
        }
    }
}

impl BuildFault {
    pub open spec fn text(self) -> Seq<char> {
        match self {
            BuildFault::StrikeOrder { lc, sc, sp, lp } => {
                "IronCondor: strike ordering invalid (lc="@ + fixed(lc, 0) + " sc="@ + fixed(sc, 0)
                    + " sp="@ + fixed(sp, 0) + " lp="@ + fixed(lp, 0) + ")"@
            },
            BuildFault::MissingStrikes { strategy, target_dte } => match strategy {
                StrategyType::IronCondor => {
                    "IronCondor: could not find all 4 strikes near "@ + decimal(target_dte as nat)
                        + "-day expiry"@
                },
                StrategyType::Strangle => "Strangle: could not find both strikes"@,
                StrategyType::IronButterfly => "IronButterfly: could not find all 4 strikes"@,
                StrategyType::LongStraddle => "LongStraddle: could not find ATM strikes"@,
                StrategyType::LongStrangle => "LongStrangle: could not find OTM strikes"@,
                StrategyType::RiskReversal => "RiskReversal: could not find 25-delta strikes"@,
                _ => strategy.label() + ": could not find strikes"@,
            },
            BuildFault::NotAnOptionTrade => {
                "DeltaHedge: use futures execution path, not option chain"@
            },
            BuildFault::NothingToDo => "DoNothing: no order to build"@,
            BuildFault::UnknownStrategy(name) => "Unknown strategy type: "@ + name,
        }
    }
}

impl BuildError {
    pub fn message(&self) -> (r: String)
        ensures
            r@ == self@.text(),
    {
        match self {
            BuildError::StrikeOrder { lc, sc, sp, lp } => {
                let mut out: String = "IronCondor: strike ordering invalid (lc=".to_string();
                out.append(lc.fixed_text(0).as_str());
                out.append(" sc=");
                out.append(sc.fixed_text(0).as_str());
                out.append(" sp=");
                out.append(sp.fixed_text(0).as_str());
                out.append(" lp=");
                out.append(lp.fixed_text(0).as_str());
                out.append(")");
                out
            },
            BuildError::MissingStrikes { strategy, target_dte } => match strategy {
                StrategyType::IronCondor => {
                    let mut out: String = "IronCondor: could not find all 4 strikes near "
                        .to_string();
                    text::push_decimal(&mut out, *target_dte as u128);
                    out.append("-day expiry");
                    out
                },
                StrategyType::Strangle => "Strangle: could not find both strikes".to_string(),
                StrategyType::IronButterfly => {
                    "IronButterfly: could not find all 4 strikes".to_string()
                },
                StrategyType::LongStraddle => {
                    "LongStraddle: could not find ATM strikes".to_string()
                },
                StrategyType::LongStrangle => {
                    "LongStrangle: could not find OTM strikes".to_string()
                },
                StrategyType::RiskReversal => {
                    "RiskReversal: could not find 25-delta strikes".to_string()
                },
                _ => {
                    let mut out: String = strategy.name().to_string();
                    out.append(": could not find strikes");
                    out
                },
            },
            BuildError::NotAnOptionTrade => {
                "DeltaHedge: use futures execution path, not option chain".to_string()
            },
            BuildError::NothingToDo => "DoNothing: no order to build".to_string(),
            BuildError::UnknownStrategy(name) => {
                let mut out: String = "Unknown strategy type: ".to_string();
                out.append(name.as_str());
                out
            },
        }
    }
}

} // verus!
