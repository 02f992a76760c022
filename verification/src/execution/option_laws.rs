//! Symbols and prices of options, and the Greeks of a trade.

use super::greeks::{estimate, estimated_rules};
use super::laws::{law_ascii_texts_are_cut_by_characters, law_symbols_have_twenty_one_characters};
use super::strategy_laws::{is_pick, law_the_nearest_delta_is_chosen};
use super::strikes::StrikeCandidate;
use super::LegRule;
use crate::num::double::Double;
use crate::num::laws::{
    law_rounding_is_to_the_nearest, lemma_whole_is_whole, lemma_whole_product, lemma_whole_quotient,
    lemma_whole_rounded, lemma_whole_sum,
};
use crate::orders::strategy::{law_names_are_distinct, strategy_named, StrategyType};
use crate::orders::EntryGreeks;
use crate::text::{after_bytes, all_digits, digits_value, space_filled, zero_filled};
use crate::text_laws::law_filled_numbers_read_back;
use vstd::prelude::*;
use vstd::utf8::is_ascii_chars;

verus! {

/// Every symbol starts with the root, in at least six columns, goes on with what follows the first
/// two bytes of the expiration and with the letter of the right, and ends in at least eight digits
/// that spell the strike in thousandths of a dollar.
pub proof fn law_symbols_have_four_parts(c: StrikeCandidate)
    ensures
        ({
            let s = c.occ();
            let width = if c.root@.len() < 6 {
                6
            } else {
                c.root@.len() as int
            };
            let date = after_bytes(c.expiration@, 2);
            let digits = s.skip(width + date.len() + 1);
            &&& s.len() >= width + date.len() + 9
            &&& s.take(c.root@.len() as int) == c.root@
            &&& forall|i: int| c.root@.len() <= i < width ==> #[trigger] s[i] == ' '
            &&& s.subrange(width, width + date.len()) == date
            &&& s[width + date.len()] == if c.right@ == "call"@ {
                'C'
            } else {
                'P'
            }
            &&& all_digits(digits)
            &&& digits_value(digits) == c.strike.product(Double::whole(1000)).rounded()
        }),
{
    let s: Seq<char> = c.occ();
    let root: Seq<char> = space_filled(c.root@, 6);
    let date: Seq<char> = after_bytes(c.expiration@, 2);
    let n: nat = c.strike_thousandths() as nat;
    let digits: Seq<char> = zero_filled(n, 8);
    law_filled_numbers_read_back(n, 8);
    law_rounding_is_to_the_nearest(c.strike.product(Double::whole(1000)));
    let width: int = root.len() as int;
    assert(s.skip(width + date.len() + 1) =~= digits);
    assert(s.take(c.root@.len() as int) =~= c.root@);
    assert(s.subrange(width, width + date.len()) =~= date);
    assert forall|i: int| c.root@.len() <= i < root.len() implies #[trigger] s[i] == ' ' by {
        assert(s[i] == root[i]);
    }
}

/// A symbol spells out the option: the root, filled up with spaces to six columns; the last six
/// characters of the expiration; `C` for a call and `P` for anything else; and eight digits that
/// give the strike in thousandths of a dollar, rounded.
pub proof fn law_symbols_spell_the_option(c: StrikeCandidate)
    requires
        c.root@.len() <= 6,
        c.expiration@.len() == 8,
        is_ascii_chars(c.expiration@),
        c.strike_thousandths() <= 99_999_999,
    ensures
        c.occ().len() == 21,
        forall|i: int| 0 <= i < c.root@.len() ==> #[trigger] c.occ()[i] == c.root@[i],
        forall|i: int| c.root@.len() <= i < 6 ==> #[trigger] c.occ()[i] == ' ',
        c.occ().subrange(6, 12) == c.expiration@.subrange(2, 8),
        c.occ()[12] == if c.right@ == "call"@ {
            'C'
        } else {
            'P'
        },
        all_digits(c.occ().subrange(13, 21)),
        digits_value(c.occ().subrange(13, 21)) == c.strike.product(Double::whole(1000)).rounded(),
{
    let s: Seq<char> = c.occ();
    law_symbols_have_twenty_one_characters(c);
    law_ascii_texts_are_cut_by_characters(c.expiration@, 2);
    let n: nat = c.strike_thousandths() as nat;
    law_rounding_is_to_the_nearest(c.strike.product(Double::whole(1000)));
    law_filled_numbers_read_back(n, 8);
    let root: Seq<char> = space_filled(c.root@, 6);
    assert(root.len() == 6);
    assert(forall|i: int| 0 <= i < 6 ==> s[i] == root[i]);
    assert(s.subrange(6, 12) =~= c.expiration@.skip(2));
    assert(c.expiration@.skip(2) =~= c.expiration@.subrange(2, 8));
    assert(s.subrange(13, 21) =~= zero_filled(n, 8));
}

/// The digits of a strike in whole dollars are a thousand times the dollars.
pub proof fn law_whole_strikes_in_thousandths(c: StrikeCandidate, dollars: int)
    requires
        c.strike == Double::whole(dollars),
        0 <= dollars <= 1_000_000_000,
    ensures
        c.strike_thousandths() == 1000 * dollars,
{
    lemma_whole_is_whole(dollars);
    lemma_whole_is_whole(1000);
    crate::num::laws::law_whole_numbers_are_exact(dollars);
    crate::num::laws::law_whole_numbers_are_exact(1000);
    lemma_whole_product(c.strike, Double::whole(1000), dollars, 1000);
    lemma_whole_is_whole(dollars * 1000);
    lemma_whole_rounded(c.strike.product(Double::whole(1000)), dollars * 1000);
}

/// The price of a leg is half-way between bid and ask: as far above the one as below the other.
pub proof fn law_prices_are_half_way(c: StrikeCandidate, bid: int, half: int)
    requires
        c.bid == Double::whole(bid),
        c.ask == Double::whole(bid + 2 * half),
        -0x10_0000_0000_0000 <= bid <= 0x10_0000_0000_0000,
        -0x10_0000_0000_0000 <= bid + 2 * half <= 0x10_0000_0000_0000,
    ensures
        c.middle() == Double::whole(bid + half),
{
    let ask: int = bid + 2 * half;
    lemma_whole_is_whole(bid);
    lemma_whole_is_whole(ask);
    lemma_whole_is_whole(2);
    crate::num::laws::law_whole_numbers_are_exact(bid);
    crate::num::laws::law_whole_numbers_are_exact(ask);
    crate::num::laws::law_whole_numbers_are_exact(2);
    lemma_whole_sum(c.bid, c.ask, bid, ask);
    assert((bid + half) * 2 == bid + ask);
    let sum: Double = c.bid.sum(c.ask);
    lemma_whole_quotient(sum, Double::whole(2), bid + half, 2);
    if bid + half == 0 {
        assert(!sum.negative()) by {
            crate::num::laws::law_whole_numbers_are_exact(0);
        }
    }
}

// ── Greeks of a trade ───────────────────────────────────────────────────────

/// The Greeks of an entry by number: delta, gamma, vega, theta.
pub open spec fn entry_greek(g: EntryGreeks, k: int) -> Double {
    if k == 0 {
        g.delta
    } else if k == 1 {
        g.gamma
    } else if k == 2 {
        g.vega
    } else {
        g.theta
    }
}

/// The Greeks of an option by number, as those of an entry are numbered.
pub open spec fn option_greek(c: StrikeCandidate, k: int) -> Double {
    if k == 0 {
        c.delta
    } else if k == 1 {
        c.gamma
    } else if k == 2 {
        c.vega
    } else {
        c.theta
    }
}

/// Which deltas are looked for, in hundredths, whether among the calls, and whether to buy.
pub open spec fn looked_for(rules: Seq<LegRule>) -> Seq<(int, bool, bool)> {
    rules.map_values(|r: LegRule| (r.delta as int, r.call, r.buy))
}

/// The legs whose Greeks are estimated, by strategy: those of iron condors, strangles, long
/// straddles, long strangles and risk reversals. No Greeks are estimated for anything else.
pub proof fn law_greeks_are_estimated_for_five_strategies(name: Seq<char>)
    ensures
        looked_for(estimated_rules("IronCondor"@)) == seq![
            (16int, true, false),
            (5int, true, true),
            (-16int, false, false),
            (-5int, false, true),
        ],
        looked_for(estimated_rules("Strangle"@)) == seq![
            (20int, true, false),
            (-20int, false, false),
        ],
        looked_for(estimated_rules("LongStraddle"@)) == seq![
            (50int, true, true),
            (-50int, false, true),
        ],
        looked_for(estimated_rules("LongStrangle"@)) == seq![
            (30int, true, true),
            (-30int, false, true),
        ],
        looked_for(estimated_rules("RiskReversal"@)) == seq![
            (25int, true, true),
            (-25int, false, false),
        ],
        name != "IronCondor"@ && name != "Strangle"@ && name != "LongStraddle"@ && name
            != "LongStrangle"@ && name != "RiskReversal"@ ==> looked_for(estimated_rules(name))
            == Seq::<(int, bool, bool)>::empty(),
{
    law_names_are_distinct(StrategyType::IronCondor, StrategyType::Strangle);
    law_names_are_distinct(StrategyType::Strangle, StrategyType::Strangle);
    law_names_are_distinct(StrategyType::LongStraddle, StrategyType::Strangle);
    law_names_are_distinct(StrategyType::LongStrangle, StrategyType::Strangle);
    law_names_are_distinct(StrategyType::RiskReversal, StrategyType::Strangle);
    assert(looked_for(estimated_rules("IronCondor"@)) =~= seq![
        (16int, true, false),
        (5int, true, true),
        (-16int, false, false),
        (-5int, false, true),
    ]);
    assert(looked_for(estimated_rules("Strangle"@)) =~= seq![
        (20int, true, false),
        (-20int, false, false),
    ]);
    assert(looked_for(estimated_rules("LongStraddle"@)) =~= seq![
        (50int, true, true),
        (-50int, false, true),
    ]);
    assert(looked_for(estimated_rules("LongStrangle"@)) =~= seq![
        (30int, true, true),
        (-30int, false, true),
    ]);
    assert(looked_for(estimated_rules("RiskReversal"@)) =~= seq![
        (25int, true, true),
        (-25int, false, false),
    ]);
    if name != "IronCondor"@ && name != "Strangle"@ && name != "LongStraddle"@ && name
        != "LongStrangle"@ && name != "RiskReversal"@ {
        if strategy_named(name) is Some {
            let s: StrategyType = strategy_named(name)->0;
            assert(s.label() == name);
        }
        assert(looked_for(estimated_rules(name)) =~= Seq::<(int, bool, bool)>::empty());
    }
}

/// One more leg adds each Greek of its option times the shares, with the opposite sign if it is
/// sold; a leg that the chain has no option for adds nothing, and no legs have no Greeks.
pub proof fn law_each_leg_adds_its_greeks(
    cs: Seq<StrikeCandidate>,
    rules: Seq<LegRule>,
    rule: LegRule,
    shares: Double,
    target_dte: u32,
    k: int,
    i: int,
)
    requires
        0 <= k < 4,
    ensures
        ({
            let before = entry_greek(estimate(cs, rules, shares, target_dte), k);
            let after = entry_greek(estimate(cs, rules.push(rule), shares, target_dte), k);
            let target = Double::percent(rule.delta as int);
            &&& entry_greek(estimate(cs, Seq::empty(), shares, target_dte), k) == Double::of(
                false,
                0,
            )
            &&& is_pick(cs, i, target, rule.call, target_dte, 7) ==> after == before.sum(
                Double::whole(
                    if rule.buy {
                        1
                    } else {
                        -1
                    },
                ).product(option_greek(cs[i], k)).product(shares),
            )
            &&& (forall|j: int| !#[trigger] is_pick(cs, j, target, rule.call, target_dte, 7))
                ==> after == before
        }),
{
    assert(rules.push(rule).drop_last() =~= rules);
    law_the_nearest_delta_is_chosen(
        cs,
        Double::percent(rule.delta as int),
        rule.call,
        target_dte,
        7,
    );
}

} // verus!
