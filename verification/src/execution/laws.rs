//! What holds of every order that is built.

use super::funding::{capital, leg_cost, multiplier_of, net_cost, total_cost, trades_futures};
use super::strikes::{
    closest, delta_miss, eligible, is_closest, lemma_closest_unique, StrikeCandidate, DTE_TOLERANCE,
};
use super::{
    all_found, condor_in_order, leg_choice, leg_option, leg_rules, legs_of, option_leg, trade_fault,
    trade_legs, LegRule,
};
use crate::broker::tradier::root_of;
use crate::num::double::{lemma_not_below_zero, one, Double};
use crate::num::laws::{distance, law_whole_numbers_are_exact};
use crate::num::rounding::{
    law_every_quotient_rounds, lemma_magnitude_order, magnitude, nearest, INF,
};
use crate::orders::strategy::{strategy_named, StrategyType};
use crate::orders::{LegView, OrderSide, OrderType};
use crate::text::{
    after_bytes, cut_allowed, decimal, head, is_space, space_filled, trimmed, zero_filled,
};
use vstd::arithmetic::power2::lemma_pow2_pos;
use vstd::prelude::*;
use vstd::utf8::{
    encode_utf8, encode_utf8_decode_utf8, encode_utf8_valid_utf8, is_ascii_chars,
    is_ascii_chars_encode_utf8, is_char_boundary_iff_not_is_continuation_byte,
    is_char_boundary_start_end_of_seq, is_continuation_byte,
};

verus! {

/// Which side the leg of a rule is on.
pub open spec fn rule_side(rule: LegRule) -> OrderSide {
    if rule.buy {
        OrderSide::Buy
    } else {
        OrderSide::Sell
    }
}

/// Every leg of an order is an option of the chain that is near the wanted expiration and
/// liquid, no such option has a delta closer to the one looked for, and the leg is a limit
/// order at the middle of the market.
pub proof fn law_legs_are_liquid_and_closest(
    name: Seq<char>,
    cs: Seq<StrikeCandidate>,
    contracts: u32,
    target_dte: u32,
    k: int,
)
    requires
        trade_legs(name, cs, contracts, target_dte) is Ok,
        0 <= k < trade_legs(name, cs, contracts, target_dte)->Ok_0.len(),
    ensures
        ({
            let legs = trade_legs(name, cs, contracts, target_dte)->Ok_0;
            let rules = leg_rules(strategy_named(name)->0);
            let rule = rules[k];
            let target = Double::percent(rule.delta as int);
            &&& legs.len() == rules.len()
            &&& exists|i: int|
                {
                    &&& 0 <= i < cs.len()
                    &&& #[trigger] eligible(cs[i], rule.call, target_dte, DTE_TOLERANCE)
                    &&& forall|j: int|
                        0 <= j < cs.len() && #[trigger] eligible(
                            cs[j],
                            rule.call,
                            target_dte,
                            DTE_TOLERANCE,
                        ) ==> !delta_miss(cs[j], target).below(delta_miss(cs[i], target))
                    &&& legs[k].symbol == cs[i].occ()
                    &&& legs[k].limit_price == Some(cs[i].middle())
                }
            &&& legs[k].order_type == OrderType::Limit
            &&& legs[k].side == rule_side(rule)
            &&& legs[k].quantity == (contracts * rule.ratio) as u64
        }),
{
    let rules: Seq<LegRule> = leg_rules(strategy_named(name)->0);
    let rule: LegRule = rules[k];
    let target: Double = Double::percent(rule.delta as int);
    assert(leg_choice(cs, rules[k], target_dte) is Some);
    let i: int = leg_choice(cs, rule, target_dte)->0;
    assert(closest(cs, target, rule.call, target_dte, DTE_TOLERANCE) == Some(i));
    assert(is_closest(cs, target, rule.call, target_dte, DTE_TOLERANCE, i));
    assert(eligible(cs[i], rule.call, target_dte, DTE_TOLERANCE));
    assert(leg_option(cs, rules, target_dte, k) == cs[i]);
}

/// The options of a chain that are liquid and near the wanted expiration.
pub open spec fn tradable(cs: Seq<StrikeCandidate>, target_dte: u32) -> Seq<StrikeCandidate> {
    cs.filter(|c: StrikeCandidate| eligible(c, c.call(), target_dte, DTE_TOLERANCE))
}

/// Where the options that are left after a filter stood before it.
spec fn places_of(
    cs: Seq<StrikeCandidate>,
    keep: spec_fn(StrikeCandidate) -> bool,
    at: Seq<int>,
) -> bool {
    &&& at.len() == cs.filter(keep).len()
    &&& forall|p: int|
        0 <= p < at.len() ==> 0 <= #[trigger] at[p] < cs.len() && cs.filter(keep)[p] == cs[at[p]]
            && keep(cs[at[p]])
    &&& forall|p: int, q: int| 0 <= p < q < at.len() ==> #[trigger] at[p] < #[trigger] at[q]
    &&& forall|i: int| 0 <= i < cs.len() && keep(#[trigger] cs[i]) ==> at.contains(i)
}

proof fn lemma_places(
    cs: Seq<StrikeCandidate>,
    keep: spec_fn(StrikeCandidate) -> bool,
) -> (at: Seq<int>)
    ensures
        places_of(cs, keep, at),
    decreases cs.len(),
{
    reveal(Seq::filter);
    if cs.len() == 0 {
        Seq::empty()
    } else {
        let front: Seq<StrikeCandidate> = cs.drop_last();
        let before: Seq<int> = lemma_places(front, keep);
        let last: int = cs.len() - 1;
        let at: Seq<int> = if keep(cs.last()) {
            before.push(last)
        } else {
            before
        };
        assert forall|i: int| 0 <= i < cs.len() && keep(#[trigger] cs[i]) implies at.contains(
            i,
        ) by {
            if i < last {
                assert(front[i] == cs[i]);
                let p: int = choose|p: int| 0 <= p < before.len() && before[p] == i;
                assert(at[p] == i);
            } else {
                assert(at[before.len() as int] == i);
            }
        }
        at
    }
}

proof fn lemma_choice_among_tradable(
    cs: Seq<StrikeCandidate>,
    rule: LegRule,
    target_dte: u32,
    at: Seq<int>,
)
    requires
        places_of(
            cs,
            |c: StrikeCandidate| eligible(c, c.call(), target_dte, DTE_TOLERANCE),
            at,
        ),
    ensures
        ({
            let left = tradable(cs, target_dte);
            match leg_choice(cs, rule, target_dte) {
                Some(i) => leg_choice(left, rule, target_dte) matches Some(p) && left[p] == cs[i],
                None => leg_choice(left, rule, target_dte) is None,
            }
        }),
{
    let keep: spec_fn(StrikeCandidate) -> bool = |c: StrikeCandidate|
        eligible(c, c.call(), target_dte, DTE_TOLERANCE);
    let left: Seq<StrikeCandidate> = tradable(cs, target_dte);
    let target: Double = Double::percent(rule.delta as int);
    let call: bool = rule.call;
    match leg_choice(cs, rule, target_dte) {
        Some(i) => {
            assert(is_closest(cs, target, call, target_dte, DTE_TOLERANCE, i));
            assert(keep(cs[i]));
            let p: int = choose|p: int| 0 <= p < at.len() && at[p] == i;
            assert(is_closest(left, target, call, target_dte, DTE_TOLERANCE, p)) by {
                assert forall|j: int|
                    0 <= j < left.len() && #[trigger] eligible(
                        left[j],
                        call,
                        target_dte,
                        DTE_TOLERANCE,
                    ) implies !delta_miss(left[j], target).below(delta_miss(left[p], target)) && (j
                    < p ==> delta_miss(left[p], target).below(delta_miss(left[j], target))) by {
                    assert(left[j] == cs[at[j]]);
                    assert(eligible(cs[at[j]], call, target_dte, DTE_TOLERANCE));
                }
            }
            lemma_closest_unique(left, target, call, target_dte, DTE_TOLERANCE, p);
        },
        None => {
            if leg_choice(left, rule, target_dte) is Some {
                let p: int = leg_choice(left, rule, target_dte)->0;
                assert(is_closest(left, target, call, target_dte, DTE_TOLERANCE, p));
                let i: int = at[p];
                assert forall|j: int|
                    0 <= j < cs.len() && #[trigger] eligible(
                        cs[j],
                        call,
                        target_dte,
                        DTE_TOLERANCE,
                    ) implies !delta_miss(cs[j], target).below(delta_miss(cs[i], target)) && (j < i
                    ==> delta_miss(cs[i], target).below(delta_miss(cs[j], target))) by {
                    assert(keep(cs[j]));
                    let q: int = choose|q: int| 0 <= q < at.len() && at[q] == j;
                    assert(left[q] == cs[at[q]]);
                    assert(eligible(left[q], call, target_dte, DTE_TOLERANCE));
                    if q > p {
                        assert(at[p] < at[q]);
                    }
                }
                assert(is_closest(cs, target, call, target_dte, DTE_TOLERANCE, i));
            }
        },
    }
}

proof fn lemma_same_options(
    cs: Seq<StrikeCandidate>,
    rules: Seq<LegRule>,
    contracts: u32,
    target_dte: u32,
)
    ensures
        ({
            let left = tradable(cs, target_dte);
            &&& all_found(cs, rules, target_dte) == all_found(left, rules, target_dte)
            &&& all_found(cs, rules, target_dte) ==> {
                &&& forall|k: int|
                    0 <= k < rules.len() ==> leg_option(cs, rules, target_dte, k)
                        == #[trigger] leg_option(left, rules, target_dte, k)
                &&& legs_of(cs, rules, contracts, target_dte) == legs_of(
                    left,
                    rules,
                    contracts,
                    target_dte,
                )
            }
        }),
{
    let left: Seq<StrikeCandidate> = tradable(cs, target_dte);
    let at: Seq<int> = lemma_places(
        cs,
        |c: StrikeCandidate| eligible(c, c.call(), target_dte, DTE_TOLERANCE),
    );
    assert forall|k: int| 0 <= k < rules.len() implies (leg_choice(
        cs,
        #[trigger] rules[k],
        target_dte,
    ) is Some) == (leg_choice(left, rules[k], target_dte) is Some) by {
        lemma_choice_among_tradable(cs, rules[k], target_dte, at);
    }
    if all_found(cs, rules, target_dte) {
        assert forall|k: int| 0 <= k < rules.len() implies leg_option(cs, rules, target_dte, k)
            == #[trigger] leg_option(left, rules, target_dte, k) by {
            assert(leg_choice(cs, rules[k], target_dte) is Some);
            lemma_choice_among_tradable(cs, rules[k], target_dte, at);
        }
        assert(legs_of(cs, rules, contracts, target_dte) =~= legs_of(
            left,
            rules,
            contracts,
            target_dte,
        ));
    }
}

proof fn lemma_condor_rules()
    ensures
        leg_rules(StrategyType::IronCondor).len() == 4,
{
}

/// Options that are not liquid, or expire at another time, never change an order: the chain
/// without them gives the same legs, or the same reason why there are none.
pub proof fn law_other_options_do_not_matter(
    name: Seq<char>,
    cs: Seq<StrikeCandidate>,
    contracts: u32,
    target_dte: u32,
)
    ensures
        trade_legs(name, cs, contracts, target_dte) == trade_legs(
            name,
            tradable(cs, target_dte),
            contracts,
            target_dte,
        ),
{
    match strategy_named(name) {
        Some(strategy) => {
            let left: Seq<StrikeCandidate> = tradable(cs, target_dte);
            let rules: Seq<LegRule> = leg_rules(strategy);
            lemma_same_options(cs, rules, contracts, target_dte);
            lemma_condor_rules();
            if strategy is IronCondor && all_found(cs, rules, target_dte) {
                assert(leg_option(cs, rules, target_dte, 0) == leg_option(left, rules, target_dte, 0));
                assert(leg_option(cs, rules, target_dte, 1) == leg_option(left, rules, target_dte, 1));
                assert(leg_option(cs, rules, target_dte, 2) == leg_option(left, rules, target_dte, 2));
                assert(leg_option(cs, rules, target_dte, 3) == leg_option(left, rules, target_dte, 3));
            }
            assert(trade_fault(name, cs, target_dte) == trade_fault(name, left, target_dte));
        },
        None => {},
    }
}

/// An iron condor and an iron butterfly buy as many options of each right as they sell, so that
/// what can be lost is bounded.
pub proof fn law_wings_cover_what_is_sold(strategy: StrategyType, call: bool)
    requires
        strategy is IronCondor || strategy is IronButterfly,
    ensures
        sold(leg_rules(strategy), call) == 1,
        bought(leg_rules(strategy), call) == 1,
{
    reveal_with_fuel(sold, 5);
    reveal_with_fuel(bought, 5);
    let rules: Seq<LegRule> = leg_rules(strategy);
    let three: Seq<LegRule> = rules.drop_last();
    let two: Seq<LegRule> = three.drop_last();
    let one: Seq<LegRule> = two.drop_last();
    assert(one.last() == rules[0]);
    assert(two.last() == rules[1]);
    assert(three.last() == rules[2]);
    assert(rules.last() == rules[3]);
}

/// In an iron condor the call that is bought has a strike at or above the one that is sold, and
/// the put that is bought has a strike at or below the one that is sold.
pub proof fn law_condors_are_bought_outside_what_is_sold(
    name: Seq<char>,
    cs: Seq<StrikeCandidate>,
    contracts: u32,
    target_dte: u32,
)
    requires
        strategy_named(name) == Some(StrategyType::IronCondor),
        trade_legs(name, cs, contracts, target_dte) is Ok,
    ensures
        ({
            let legs = trade_legs(name, cs, contracts, target_dte)->Ok_0;
            let rules = leg_rules(StrategyType::IronCondor);
            let sold_call = leg_option(cs, rules, target_dte, 0);
            let bought_call = leg_option(cs, rules, target_dte, 1);
            let sold_put = leg_option(cs, rules, target_dte, 2);
            let bought_put = leg_option(cs, rules, target_dte, 3);
            &&& legs == seq![
                option_leg(sold_call, OrderSide::Sell, contracts as u64),
                option_leg(bought_call, OrderSide::Buy, contracts as u64),
                option_leg(sold_put, OrderSide::Sell, contracts as u64),
                option_leg(bought_put, OrderSide::Buy, contracts as u64),
            ]
            &&& sold_call.strike.at_most(bought_call.strike)
            &&& bought_put.strike.at_most(sold_put.strike)
        }),
{
    let rules: Seq<LegRule> = leg_rules(StrategyType::IronCondor);
    assert(condor_in_order(cs, rules, target_dte)) by {
        assert(trade_fault(name, cs, target_dte) is None);
        assert(rules.len() == 4);
    }
    lemma_condor_legs(cs, contracts, target_dte);
}

proof fn lemma_condor_legs(cs: Seq<StrikeCandidate>, contracts: u32, target_dte: u32)
    ensures
        ({
            let rules = leg_rules(StrategyType::IronCondor);
            legs_of(cs, rules, contracts, target_dte) == seq![
                option_leg(leg_option(cs, rules, target_dte, 0), OrderSide::Sell, contracts as u64),
                option_leg(leg_option(cs, rules, target_dte, 1), OrderSide::Buy, contracts as u64),
                option_leg(leg_option(cs, rules, target_dte, 2), OrderSide::Sell, contracts as u64),
                option_leg(leg_option(cs, rules, target_dte, 3), OrderSide::Buy, contracts as u64),
            ]
        }),
{
    let rules: Seq<LegRule> = leg_rules(StrategyType::IronCondor);
    assert(rules.len() == 4);
    assert(!rules[0].buy && rules[1].buy && !rules[2].buy && rules[3].buy);
    assert(rules[0].ratio == 1 && rules[1].ratio == 1 && rules[2].ratio == 1 && rules[3].ratio == 1);
    assert(contracts * 1 == contracts);
    let a: LegView = option_leg(
        leg_option(cs, rules, target_dte, 0),
        OrderSide::Sell,
        contracts as u64,
    );
    let b: LegView = option_leg(
        leg_option(cs, rules, target_dte, 1),
        OrderSide::Buy,
        contracts as u64,
    );
    let c: LegView = option_leg(
        leg_option(cs, rules, target_dte, 2),
        OrderSide::Sell,
        contracts as u64,
    );
    let d: LegView = option_leg(
        leg_option(cs, rules, target_dte, 3),
        OrderSide::Buy,
        contracts as u64,
    );
    let legs: Seq<LegView> = legs_of(cs, rules, contracts, target_dte);
    assert(legs.len() == 4);
    assert(legs[0] == a);
    assert(legs[1] == b);
    assert(legs[2] == c);
    assert(legs[3] == d);
    assert(legs =~= seq![a, b, c, d]);
}

/// How many options of a right are sold for one contract.
pub open spec fn sold(rules: Seq<LegRule>, call: bool) -> nat
    decreases rules.len(),
{
    if rules.len() == 0 {
        0
    } else {
        sold(rules.drop_last(), call) + (if rules.last().call == call && !rules.last().buy {
            rules.last().ratio as nat
        } else {
            0nat
        })
    }
}

/// How many options of a right are bought for one contract.
pub open spec fn bought(rules: Seq<LegRule>, call: bool) -> nat
    decreases rules.len(),
{
    if rules.len() == 0 {
        0
    } else {
        bought(rules.drop_last(), call) + (if rules.last().call == call && rules.last().buy {
            rules.last().ratio as nat
        } else {
            0nat
        })
    }
}

/// A backspread buys two options for each that it sells.
pub proof fn law_backspreads_buy_two_for_one(call: bool)
    ensures
        bought(leg_rules(StrategyType::Backspread), call) == 2 * sold(
            leg_rules(StrategyType::Backspread),
            call,
        ),
{
    reveal_with_fuel(sold, 3);
    reveal_with_fuel(bought, 3);
    let rules: Seq<LegRule> = leg_rules(StrategyType::Backspread);
    let one: Seq<LegRule> = rules.drop_last();
    assert(one.last() == rules[0]);
    assert(rules.last() == rules[1]);
}

/// In a text of ASCII characters bytes are characters: an expiration `YYYYMMDD` can be cut, and
/// loses its century.
pub proof fn law_ascii_texts_are_cut_by_characters(s: Seq<char>, n: int)
    requires
        is_ascii_chars(s),
        0 <= n <= s.len(),
    ensures
        cut_allowed(s, n),
        after_bytes(s, n) == s.skip(n),
{
    let bytes: Seq<u8> = encode_utf8(s);
    let tail: Seq<char> = s.skip(n);
    encode_utf8_valid_utf8(s);
    is_ascii_chars_encode_utf8(s);
    assert forall|i: int| 0 <= i < tail.len() implies '\0' <= #[trigger] tail[i] <= '\u{7f}' by {
        assert(s[n + i] == tail[i]);
    }
    is_ascii_chars_encode_utf8(tail);
    if n < s.len() {
        is_char_boundary_iff_not_is_continuation_byte(bytes, n);
        let b: u8 = bytes[n];
        assert(s[n] as u8 == b);
        assert(b <= 0x7f);
        assert(!is_continuation_byte(b)) by (bit_vector)
            requires
                b <= 0x7f,
        ;
    } else {
        is_char_boundary_start_end_of_seq(bytes);
    }
    assert(bytes.subrange(n, bytes.len() as int) =~= encode_utf8(tail)) by {
        assert forall|i: int| 0 <= i < tail.len() implies bytes.subrange(
            n,
            bytes.len() as int,
        )[i] == encode_utf8(tail)[i] by {
            assert(s[n + i] == tail[i]);
        }
    }
    encode_utf8_decode_utf8(tail);
}

proof fn lemma_trim_spaces(s: Seq<char>, n: nat)
    requires
        s.len() > 0,
        !is_space(s[0]),
        trimmed(s) == s,
    ensures
        trimmed(s + Seq::new(n, |i: int| ' ')) == s,
    decreases n,
{
    let padded: Seq<char> = s + Seq::new(n, |i: int| ' ');
    if n == 0 {
        assert(padded =~= s);
    } else {
        assert(padded[0] == s[0]);
        assert(padded.last() == ' ');
        assert(padded.drop_last() =~= s + Seq::new((n - 1) as nat, |i: int| ' '));
        lemma_trim_spaces(s, (n - 1) as nat);
    }
}

/// The root of an option can be read back from its symbol, if it fits its six columns and has
/// no white space at its ends.
pub proof fn law_symbols_give_back_the_root(c: StrikeCandidate)
    requires
        0 < c.root@.len() <= 6,
        trimmed(c.root@) == c.root@,
    ensures
        root_of(c.occ()) == c.root@,
{
    let root: Seq<char> = c.root@;
    let columns: Seq<char> = space_filled(root, 6);
    assert(columns.len() == 6);
    assert(head(c.occ(), 6) =~= columns);
    if is_space(root[0]) {
        lemma_trimmed_shorter(root.skip(1));
    }
    lemma_trim_spaces(root, (6 - root.len()) as nat);
}

proof fn lemma_trimmed_shorter(s: Seq<char>)
    ensures
        trimmed(s).len() <= s.len(),
    decreases s.len(),
{
    if s.len() > 0 {
        lemma_trimmed_shorter(s.skip(1));
        lemma_trimmed_shorter(s.drop_last());
    }
}

// ── Symbols ─────────────────────────────────────────────────────────────────

/// Powers of ten.
spec fn tens(width: nat) -> nat
    decreases width,
{
    if width == 0 {
        1
    } else {
        10 * tens((width - 1) as nat)
    }
}

proof fn lemma_decimal_len(n: nat, width: nat)
    requires
        0 < width,
        n < tens(width),
    ensures
        0 < decimal(n).len() <= width,
    decreases width,
{
    if n >= 10 {
        assert(tens(0) == 1);
        lemma_decimal_len(n / 10, (width - 1) as nat);
    }
}

/// A symbol has 21 characters: those of the root in six columns, six of the date, the right and
/// eight digits, if the root fits its columns, the expiration has eight characters of ASCII and
/// the strike is below one hundred thousand dollars.
pub proof fn law_symbols_have_twenty_one_characters(c: StrikeCandidate)
    requires
        c.root@.len() <= 6,
        c.expiration@.len() == 8,
        is_ascii_chars(c.expiration@),
        c.strike_thousandths() <= 99_999_999,
    ensures
        c.occ().len() == 21,
{
    law_ascii_texts_are_cut_by_characters(c.expiration@, 2);
    let strike: int = c.strike_thousandths();
    lemma_rounded_range(c.strike.product(Double::whole(1000)));
    assert(tens(8) == 100_000_000) by {
        reveal_with_fuel(tens, 9);
    }
    lemma_decimal_len(strike as nat, 8);
    assert(zero_filled(strike as nat, 8).len() == 8);
}

proof fn lemma_rounded_range(x: Double)
    ensures
        0 <= x.rounded(),
{
    if x.finite() {
        lemma_pow2_pos(1074);
        lemma_magnitude_order(x.rank(), 0);
        let a: int = 2 * magnitude(x.rank()) + one();
        let b: int = 2 * one();
        assert(a / b >= 0) by (nonlinear_arith)
            requires
                a >= 0,
                b > 0,
        ;
    }
}

// ── Capital ─────────────────────────────────────────────────────────────────

/// A leg on the other side of the market.
pub open spec fn turned(leg: LegView) -> LegView {
    LegView {
        side: match leg.side {
            OrderSide::Buy => OrderSide::Sell,
            OrderSide::Sell => OrderSide::Buy,
        },
        ..leg
    }
}

/// An order on the other side of the market.
pub open spec fn all_turned(legs: Seq<LegView>) -> Seq<LegView> {
    legs.map_values(|leg: LegView| turned(leg))
}

/// Whether two numbers have the same magnitude and opposite values, or are both not numbers.
spec fn mirrored(x: Double, y: Double) -> bool {
    if x.nan() {
        y.nan()
    } else {
        x.rank() == y.rank() && x.units() + y.units() == 0
    }
}

/// Rank and value of a sum of finite numbers.
proof fn lemma_finite_sum(x: Double, a: Double)
    requires
        x.finite(),
        a.finite(),
    ensures
        ({
            let exact = x.units() + a.units();
            let k = if exact == 0 {
                0
            } else {
                nearest(distance(exact), 1)
            };
            &&& x.sum(a).rank() == k <= INF
            &&& x.sum(a).units() == if exact < 0 {
                -magnitude(k)
            } else {
                magnitude(k)
            }
        }),
{
    reveal(Double::sum);
    let exact: int = x.units() + a.units();
    assert(magnitude(0) == 0);
    if exact != 0 {
        law_every_quotient_rounds(distance(exact), 1);
        let k: int = nearest(distance(exact), 1);
        let r: Double = Double::of(exact < 0, k);
        assert(r.rank() == k && r.negative() == (exact < 0));
    }
}

proof fn lemma_mirrored_sum(x: Double, y: Double, a: Double, b: Double)
    requires
        mirrored(x, y),
        mirrored(a, b),
    ensures
        mirrored(x.sum(a), y.sum(b)),
{
    if x.finite() && a.finite() {
        lemma_finite_sum(x, a);
        lemma_finite_sum(y, b);
    } else {
        lemma_magnitude_order(INF as int, 0);
        assert(x.sum(a).nan() || x.sum(a) == x || x.sum(a) == a) by {
            reveal(Double::sum);
        }
        assert(mirrored(x.sum(a), y.sum(b))) by {
            reveal(Double::sum);
        }
    }
}

proof fn lemma_mirrored_cost(leg: LegView, multiplier: Double)
    ensures
        mirrored(leg_cost(leg, multiplier), leg_cost(turned(leg), multiplier)),
{
    let cost: Double = leg_cost(
        LegView { side: OrderSide::Buy, ..leg },
        multiplier,
    );
    let other: Double = cost.opposite();
    assert(other.rank() == cost.rank() && other.negative() == !cost.negative());
}

proof fn lemma_mirrored_total(legs: Seq<LegView>, multiplier: Double)
    ensures
        mirrored(total_cost(legs, multiplier), total_cost(all_turned(legs), multiplier)),
    decreases legs.len(),
{
    if legs.len() == 0 {
        assert(magnitude(0) == 0);
    } else {
        let front: Seq<LegView> = legs.drop_last();
        lemma_mirrored_total(front, multiplier);
        lemma_mirrored_cost(legs.last(), multiplier);
        assert(all_turned(legs).drop_last() =~= all_turned(front));
        assert(all_turned(legs).last() == turned(legs.last()));
        lemma_mirrored_sum(
            total_cost(front, multiplier),
            total_cost(all_turned(front), multiplier),
            leg_cost(legs.last(), multiplier),
            leg_cost(turned(legs.last()), multiplier),
        );
    }
}

/// The capital that an order needs is never below zero.
pub proof fn law_capital_is_never_negative(legs: Seq<LegView>)
    ensures
        !capital(legs).below(Double::of(false, 0)),
{
    reveal(Double::product);
    let net: Double = net_cost(legs);
    if !Double::of(false, 0).at_most(net) {
        law_whole_numbers_are_exact(2);
        let size: Double = net.absolute();
        let margin: Double = size.product(Double::whole(2));
        assert(!size.negative());
        if size.finite() {
            lemma_pow2_pos(1074);
            let a: int = magnitude(size.rank());
            let b: int = magnitude(Double::whole(2).rank());
            lemma_magnitude_order(size.rank(), 0);
            lemma_magnitude_order(Double::whole(2).rank(), 0);
            assert(a * b >= 0) by (nonlinear_arith)
                requires
                    a >= 0,
                    b >= 0,
            ;
            law_every_quotient_rounds(a * b, one());
        }
        assert(!margin.negative());
        lemma_not_below_zero(margin);
    }
}

/// Where an order costs money, its capital is what it costs, and the order on the other side of
/// the market, which brings that in, needs twice as much.
pub proof fn law_credits_need_twice_the_debit(legs: Seq<LegView>)
    requires
        Double::of(false, 0).below(net_cost(legs)),
    ensures
        capital(legs) == net_cost(legs),
        capital(all_turned(legs)) == net_cost(legs).product(Double::whole(2)),
{
    let other: Seq<LegView> = all_turned(legs);
    assert(trades_futures(other) == trades_futures(legs)) by {
        assert forall|i: int| 0 <= i < legs.len() implies other[i].instrument
            == #[trigger] legs[i].instrument by {}
        if trades_futures(legs) {
            let i: int = choose|i: int|
                0 <= i < legs.len() && (#[trigger] legs[i]).instrument.futures();
            assert(other[i].instrument.futures());
        }
        if trades_futures(other) {
            let i: int = choose|i: int|
                0 <= i < other.len() && (#[trigger] other[i]).instrument.futures();
            assert(legs[i].instrument.futures());
        }
    }
    lemma_mirrored_total(legs, multiplier_of(legs));
    let net: Double = net_cost(legs);
    assert(magnitude(0) == 0);
    lemma_magnitude_order(net.rank(), 0);
    assert(!net.negative());
    assert(net_cost(other).absolute() == net);
}

} // verus!
