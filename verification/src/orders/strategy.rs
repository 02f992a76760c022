//! The kinds of trade that may be proposed.

use crate::text::same;
use vstd::prelude::*;

verus! {

#[derive(Clone, Copy, Debug, PartialEq, Eq, Structural)]
pub enum StrategyType {
    IronCondor,
    Strangle,
    IronButterfly,
    LongStraddle,
    LongStrangle,
    Backspread,
    RiskReversal,
    FuturesCalendar,
    FuturesLong,
    FuturesShort,
    DeltaHedge,
    DoNothing,
}

impl StrategyType {
    /// The name that messages use.
    pub open spec fn label(self) -> Seq<char> {
        match self {
            StrategyType::IronCondor => "IronCondor"@,
            StrategyType::Strangle => "Strangle"@,
            StrategyType::IronButterfly => "IronButterfly"@,
            StrategyType::LongStraddle => "LongStraddle"@,
            StrategyType::LongStrangle => "LongStrangle"@,
            StrategyType::Backspread => "Backspread"@,
            StrategyType::RiskReversal => "RiskReversal"@,
            StrategyType::FuturesCalendar => "FuturesCalendar"@,
            StrategyType::FuturesLong => "FuturesLong"@,
            StrategyType::FuturesShort => "FuturesShort"@,
            StrategyType::DeltaHedge => "DeltaHedge"@,
            StrategyType::DoNothing => "DoNothing"@,
        }
    }

    pub fn name(self) -> (r: &'static str)
        ensures
            r@ == self.label(),
    {
        match self {
            StrategyType::IronCondor => "IronCondor",
            StrategyType::Strangle => "Strangle",
            StrategyType::IronButterfly => "IronButterfly",
            StrategyType::LongStraddle => "LongStraddle",
            StrategyType::LongStrangle => "LongStrangle",
            StrategyType::Backspread => "Backspread",
            StrategyType::RiskReversal => "RiskReversal",
            StrategyType::FuturesCalendar => "FuturesCalendar",
            StrategyType::FuturesLong => "FuturesLong",
            StrategyType::FuturesShort => "FuturesShort",
            StrategyType::DeltaHedge => "DeltaHedge",
            StrategyType::DoNothing => "DoNothing",
        }
    }

    /// The kind that a name stands for.
    pub fn named(name: &str) -> (r: Option<StrategyType>)
        ensures
            r == strategy_named(name@),
    {
        let r: Option<StrategyType> = StrategyType::find(name);
        proof {
            if r is Some {
                law_names_are_distinct(r->0, r->0);
            }
        }
        r
    }

    fn find(name: &str) -> (r: Option<StrategyType>)
        ensures
            match r {
                Some(s) => s.label() == name@,
                None => forall|s: StrategyType| #[trigger] s.label() != name@,
            },
    {
        if same(name, "IronCondor") {
            return Some(StrategyType::IronCondor);
        }
        if same(name, "Strangle") {
            return Some(StrategyType::Strangle);
        }
        if same(name, "IronButterfly") {
            return Some(StrategyType::IronButterfly);
        }
        if same(name, "LongStraddle") {
            return Some(StrategyType::LongStraddle);
        }
        if same(name, "LongStrangle") {
            return Some(StrategyType::LongStrangle);
        }
        if same(name, "Backspread") {
            return Some(StrategyType::Backspread);
        }
        if same(name, "RiskReversal") {
            return Some(StrategyType::RiskReversal);
        }
        if same(name, "FuturesCalendar") {
            return Some(StrategyType::FuturesCalendar);
        }
        if same(name, "FuturesLong") {
            return Some(StrategyType::FuturesLong);
        }
        if same(name, "FuturesShort") {
            return Some(StrategyType::FuturesShort);
        }
        if same(name, "DeltaHedge") {
            return Some(StrategyType::DeltaHedge);
        }
        if same(name, "DoNothing") {
            return Some(StrategyType::DoNothing);
        }
        None
    }
}

/// The kind that a name stands for.
pub open spec fn strategy_named(name: Seq<char>) -> Option<StrategyType> {
    if exists|s: StrategyType| #[trigger] s.label() == name {
        Some(choose|s: StrategyType| #[trigger] s.label() == name)
    } else {
        None
    }
}

/// A number that tells the names apart: their length, and their third and eighth letters.
spec fn mark(name: Seq<char>) -> (nat, char, char) {
    (name.len(), name[2], name[7])
}

proof fn lemma_marks()
    ensures
        mark("IronCondor"@) == (10nat, 'o', 'd'),
        mark("Strangle"@) == (8nat, 'r', 'e'),
        mark("IronButterfly"@) == (13nat, 'o', 't'),
        mark("LongStraddle"@) == (12nat, 'n', 'a'),
        mark("LongStrangle"@) == (12nat, 'n', 'a'),
        mark("Backspread"@) == (10nat, 'c', 'e'),
        mark("RiskReversal"@) == (12nat, 's', 'e'),
        mark("FuturesCalendar"@) == (15nat, 't', 'C'),
        mark("FuturesLong"@) == (11nat, 't', 'L'),
        mark("FuturesShort"@) == (12nat, 't', 'S'),
        mark("DeltaHedge"@) == (10nat, 'l', 'd'),
        mark("DoNothing"@) == (9nat, 'N', 'n'),
        "LongStraddle"@ != "LongStrangle"@,
{
    reveal_strlit("IronCondor");
    reveal_strlit("Strangle");
    reveal_strlit("IronButterfly");
    reveal_strlit("LongStraddle");
    reveal_strlit("LongStrangle");
    reveal_strlit("Backspread");
    reveal_strlit("RiskReversal");
    reveal_strlit("FuturesCalendar");
    reveal_strlit("FuturesLong");
    reveal_strlit("FuturesShort");
    reveal_strlit("DeltaHedge");
    reveal_strlit("DoNothing");
    assert("LongStraddle"@[8] == 'd');
    assert("LongStrangle"@[8] == 'n');
}

/// No two kinds share a name, so that a name gives back the kind it was written for.
pub proof fn law_names_are_distinct(a: StrategyType, b: StrategyType)
    ensures
        a.label() == b.label() ==> a == b,
        strategy_named(a.label()) == Some(a),
{
    lemma_marks();
    if a.label() == b.label() {
        assert(mark(a.label()) == mark(b.label()));
        assert(a == b);
    }
    assert forall|s: StrategyType| #[trigger] s.label() == a.label() implies s == a by {
        assert(mark(s.label()) == mark(a.label()));
    }
}

} // verus!
