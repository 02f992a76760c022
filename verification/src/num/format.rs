//! Numbers as whole ones and as text.

use super::double::{one, Double};
use super::rounding::{decode, lemma_pow2_127, magnitude, power_of_two, INF};
use crate::text::{decimal, digit, digit_char, padded, push_decimal, push_padded};
use vstd::arithmetic::div_mod::{lemma_fundamental_div_mod, lemma_fundamental_div_mod_converse};
use vstd::arithmetic::power::pow;
use vstd::arithmetic::power2::{
    lemma_pow2_adds, lemma_pow2_pos, lemma_pow2_strictly_increases, lemma_pow2_unfold, pow2,
};
use vstd::prelude::*;

verus! {

/// The whole number nearest to a quotient; a half goes to the even one.
pub open spec fn half_even(num: int, den: int) -> int {
    let q = num / den;
    let r = num % den;
    if 2 * r > den || (2 * r == den && q % 2 == 1) {
        q + 1
    } else {
        q
    }
}

/// A number in decimal with a fixed count of places after the point.
pub open spec fn fixed(x: Double, places: nat) -> Seq<char> {
    let sign = if x.negative() {
        seq!['-']
    } else {
        Seq::empty()
    };
    if x.nan() {
        "NaN"@
    } else if x.infinite() {
        sign + "inf"@
    } else {
        let scale = pow(10, places);
        let n = half_even(magnitude(x.rank()) * scale, one());
        let whole = sign + decimal((n / scale) as nat);
        if places == 0 {
            whole
        } else {
            whole.push('.') + padded((n % scale) as nat, places)
        }
    }
}

/// A common factor cancels in division.
proof fn lemma_cancel(a: int, b: int, c: int)
    requires
        b > 0,
        c > 0,
    ensures
        b * c > 0,
        (a * c) / (b * c) == a / b,
        (a * c) % (b * c) == (a % b) * c,
{
    lemma_fundamental_div_mod(a, b);
    let q: int = a / b;
    let r: int = a % b;
    assert(b * c > 0 && 0 <= r * c < b * c) by (nonlinear_arith)
        requires
            0 <= r < b,
            c > 0,
    ;
    assert(a * c == q * (b * c) + r * c) by (nonlinear_arith)
        requires
            a == b * q + r,
    ;
    lemma_fundamental_div_mod_converse(a * c, b * c, q, r * c);
}

proof fn lemma_half_even_cancel(a: int, b: int, c: int)
    requires
        b > 0,
        c > 0,
    ensures
        half_even(a * c, b * c) == half_even(a, b),
{
    lemma_cancel(a, b, c);
    let r: int = a % b;
    assert((2 * (r * c) > b * c) == (2 * r > b) && (2 * (r * c) == b * c) == (2 * r == b))
        by (nonlinear_arith)
        requires
            c > 0,
    ;
}

/// What is less than half of the divisor rounds to zero.
proof fn lemma_half_even_small(a: int, b: int)
    requires
        0 <= a,
        2 * a < b,
    ensures
        half_even(a, b) == 0,
{
    lemma_fundamental_div_mod_converse(a, b, 0, a);
}

proof fn lemma_half_even_whole(a: int, b: int)
    requires
        b > 0,
    ensures
        half_even(a * b, b) == a,
        (a * b) / b == a,
        (a * b) % b == 0,
{
    lemma_fundamental_div_mod_converse(a * b, b, a, 0);
}

/// Decimal digits, least significant first, as a number.
spec fn tally(v: Seq<u8>) -> int
    decreases v.len(),
{
    if v.len() == 0 {
        0
    } else {
        v[0] + 10 * tally(v.skip(1))
    }
}

spec fn proper(v: Seq<u8>) -> bool {
    &&& v.len() > 0
    &&& forall|i: int| 0 <= i < v.len() ==> #[trigger] v[i] < 10
    &&& v.last() > 0
}

proof fn lemma_tally_push(v: Seq<u8>, d: u8)
    ensures
        tally(v.push(d)) == tally(v) + d * pow(10, v.len()),
    decreases v.len(),
{
    reveal(pow);
    if v.len() == 0 {
        assert(v.push(d).skip(1) == Seq::<u8>::empty());
        assert(tally(Seq::<u8>::empty()) == 0);
    } else {
        assert(v.push(d).skip(1) == v.skip(1).push(d));
        lemma_tally_push(v.skip(1), d);
        let p: int = pow(10, (v.len() - 1) as nat);
        assert(10 * (d * p) == d * (10 * p)) by (nonlinear_arith);
        assert(pow(10, v.len()) == 10 * p);
        assert(10 * tally(v.skip(1).push(d)) == 10 * tally(v.skip(1)) + 10 * (d * p));
    }
}

/// Digits without a leading zero are the decimal text of their number.
proof fn lemma_tally_decimal(v: Seq<u8>)
    requires
        proper(v),
    ensures
        tally(v) >= 1,
        decimal(tally(v) as nat) == Seq::new(v.len(), |i: int| digit(v[v.len() - 1 - i] as int)),
    decreases v.len(),
{
    let rest: Seq<u8> = v.skip(1);
    assert(v[0] < 10);
    if v.len() == 1 {
        assert(tally(rest) == 0);
        assert(decimal(tally(v) as nat) =~= Seq::new(
            v.len(),
            |i: int| digit(v[v.len() - 1 - i] as int),
        ));
    } else {
        assert forall|i: int| 0 <= i < rest.len() implies #[trigger] rest[i] < 10 by {
            assert(v[i + 1] < 10);
        }
        lemma_tally_decimal(rest);
        let n: int = tally(v);
        assert(n / 10 == tally(rest) && n % 10 == v[0]);
        assert(decimal(n as nat) =~= Seq::new(v.len(), |i: int| digit(v[v.len() - 1 - i] as int)));
    }
}

/// Doubles a number that is held as decimal digits.
fn double_digits(v: &mut Vec<u8>)
    requires
        proper(old(v)@),
    ensures
        proper(final(v)@),
        tally(final(v)@) == 2 * tally(old(v)@),
{
    let mut carry: u8 = 0;
    let mut i: usize = 0;
    let ghost old_v: Seq<u8> = v@;
    assert(old_v.take(0) == Seq::<u8>::empty());
    assert(v@.take(0) == Seq::<u8>::empty());
    proof {
        reveal(pow);
    }
    while i < v.len()
        invariant
            i <= v.len(),
            v.len() == old_v.len(),
            carry <= 1,
            proper(old_v),
            forall|j: int| 0 <= j < i ==> #[trigger] v@[j] < 10,
            forall|j: int| i <= j < v.len() ==> v@[j] == old_v[j],
            tally(v@.take(i as int)) + carry * pow(10, i as nat) == 2 * tally(
                old_v.take(i as int),
            ),
            i == v.len() ==> carry > 0 || v@.last() > 0,
        decreases v.len() - i,
    {
        assert(old_v[i as int] < 10);
        let ghost before: Seq<u8> = v@;
        let ghost c0: int = carry as int;
        let d: u8 = v[i] * 2 + carry;
        let digit: u8 = d % 10;
        v.set(i, digit);
        carry = d / 10;
        proof {
            assert(v@.take(i as int) == before.take(i as int));
            assert(v@.take(i + 1) == v@.take(i as int).push(digit));
            assert(old_v.take(i + 1) == old_v.take(i as int).push(old_v[i as int]));
            lemma_tally_push(v@.take(i as int), digit);
            lemma_tally_push(old_v.take(i as int), old_v[i as int]);
            let p: int = pow(10, i as nat);
            reveal(pow);
            assert(pow(10, (i + 1) as nat) == 10 * p);
            let c1: int = carry as int;
            let g: int = digit as int;
            let o: int = old_v[i as int] as int;
            assert(g * p + c1 * (10 * p) == 2 * (o * p) + c0 * p) by (nonlinear_arith)
                requires
                    g + 10 * c1 == 2 * o + c0,
            ;
            if i + 1 == v.len() {
                assert(old_v.last() > 0);
            }
        }
        i = i + 1;
    }
    assert(v@.take(i as int) == v@);
    assert(old_v.take(i as int) == old_v);
    if carry > 0 {
        proof {
            lemma_tally_push(v@, 1);
        }
        v.push(carry);
    }
}

/// Decimal digits of a positive number, least significant first.
fn digits_of(n: u64) -> (v: Vec<u8>)
    requires
        n > 0,
    ensures
        proper(v@),
        tally(v@) == n,
{
    let mut v: Vec<u8> = Vec::new();
    let mut rest: u64 = n;
    proof {
        reveal(pow);
    }
    while rest > 0
        invariant
            forall|i: int| 0 <= i < v.len() ==> #[trigger] v@[i] < 10,
            tally(v@) + rest * pow(10, v@.len()) == n,
            rest == 0 ==> v.len() > 0 && v@.last() > 0,
        decreases rest,
    {
        let d: u8 = (rest % 10) as u8;
        proof {
            lemma_tally_push(v@, d);
            reveal(pow);
            let p: int = pow(10, v@.len());
            let q: int = (rest / 10) as int;
            let r: int = rest as int;
            assert(pow(10, (v@.len() + 1) as nat) == 10 * p);
            assert(d * p + q * (10 * p) == r * p) by (nonlinear_arith)
                requires
                    r == 10 * q + d,
            ;
        }
        v.push(d);
        rest = rest / 10;
    }
    v
}

/// Appends `m` times two to the power `s` in decimal.
fn push_large(out: &mut String, m: u64, s: u64)
    requires
        m > 0,
    ensures
        final(out)@ == old(out)@ + decimal((m * pow2(s as nat)) as nat),
{
    let mut v: Vec<u8> = digits_of(m);
    let mut i: u64 = 0;
    proof {
        vstd::arithmetic::power2::lemma2_to64();
    }
    while i < s
        invariant
            i <= s,
            proper(v@),
            tally(v@) == m * pow2(i as nat),
        decreases s - i,
    {
        double_digits(&mut v);
        proof {
            lemma_pow2_unfold((i + 1) as nat);
            let p: int = pow2(i as nat) as int;
            assert(2 * (m * p) == m * (2 * p)) by (nonlinear_arith);
        }
        i = i + 1;
    }
    proof {
        lemma_tally_decimal(v@);
    }
    let ghost all: Seq<char> = Seq::new(v@.len(), |i: int| digit(v@[v@.len() - 1 - i] as int));
    let n: usize = v.len();
    let mut j: usize = 0;
    while j < n
        invariant
            j <= n,
            n == v.len(),
            proper(v@),
            all == Seq::new(v@.len(), |i: int| digit(v@[v@.len() - 1 - i] as int)),
            out@ == old(out)@ + all.take(j as int),
        decreases n - j,
    {
        assert(v@[n - 1 - j] < 10);
        out.push(digit_char(v[n - 1 - j]));
        assert(all.take(j + 1) == all.take(j as int).push(all[j as int]));
        j = j + 1;
    }
    assert(all.take(j as int) == all);
}

fn power_of_ten(places: u32) -> (r: u64)
    requires
        places <= 9,
    ensures
        r == pow(10, places as nat),
        1 <= r <= 1_000_000_000,
{
    proof {
        reveal_with_fuel(pow, 10);
    }
    match places {
        0 => 1,
        1 => 10,
        2 => 100,
        3 => 1_000,
        4 => 10_000,
        5 => 100_000,
        6 => 1_000_000,
        7 => 10_000_000,
        8 => 100_000_000,
        _ => 1_000_000_000,
    }
}

/// Rounds `m` times two to the power `-d` to a whole number.
fn round_shifted(m: u128, d: u64) -> (q: u128)
    requires
        m < 0x1000_0000_0000_0000_0000_0000,
        1 <= d,
    ensures
        q == half_even(m as int, pow2(d as nat) as int),
        q <= m + 1,
{
    proof {
        lemma_pow2_pos(d as nat);
        lemma_pow2_127();
    }
    if d >= 127 {
        proof {
            if d > 127 {
                lemma_pow2_strictly_increases(127, d as nat);
            }
            lemma_half_even_small(m as int, pow2(d as nat) as int);
        }
        return 0;
    }
    let w: u128 = power_of_two(d);
    proof {
        lemma_pow2_strictly_increases(d as nat, 127);
        lemma_fundamental_div_mod(m as int, w as int);
        let q: int = m as int / w as int;
        assert(q <= m) by (nonlinear_arith)
            requires
                m == w * q + m as int % w as int,
                m as int % w as int >= 0,
                w >= 1,
                m >= 0,
        ;
    }
    let q: u128 = m / w;
    let r: u128 = m % w;
    if r > w - r || (r == w - r && q % 2 == 1) {
        q + 1
    } else {
        q
    }
}

impl Double {
    /// The number in decimal with `places` digits after the point.
    pub fn fixed_text(self, places: u32) -> (r: String)
        requires
            places <= 9,
        ensures
            r@ == fixed(self, places as nat),
    {
        if self.is_nan() {
            return "NaN".to_string();
        }
        let mut out: String = String::new();
        if self.is_negative() {
            out.push('-');
        }
        let ghost sign: Seq<char> = out@;
        let k: u64 = self.rank_bits();
        if k == INF {
            out.append("inf");
            return out;
        }
        let (m, e) = decode(k);
        let t: u64 = power_of_ten(places);
        let ghost mag: int = magnitude(k as int);
        let ghost n: int = half_even(mag * t, one());
        if e < 1074 {
            proof {
                let f: int = pow2(e as nat) as int;
                let d: int = pow2((1074 - e) as nat) as int;
                lemma_pow2_pos(e as nat);
                lemma_pow2_pos((1074 - e) as nat);
                lemma_pow2_adds((1074 - e) as nat, e as nat);
                assert(mag * t == (m * t) * f) by (nonlinear_arith)
                    requires
                        mag == m * f,
                ;
                lemma_half_even_cancel(m * t, d, f);
                assert(m * t < 0x1000_0000_0000_0000_0000_0000) by (nonlinear_arith)
                    requires
                        m < 0x20_0000_0000_0000,
                        t <= 1_000_000_000,
                ;
            }
            let q: u128 = round_shifted(m as u128 * t as u128, 1074 - e);
            push_decimal(&mut out, q / t as u128);
            if places > 0 {
                out.push('.');
                push_padded(&mut out, q % t as u128, places);
            }
        } else {
            proof {
                let f: int = pow2((e - 1074) as nat) as int;
                lemma_pow2_adds((e - 1074) as nat, 1074);
                lemma_pow2_pos(1074);
                assert(mag * t == ((m * f) * t) * one()) by (nonlinear_arith)
                    requires
                        mag == m * (f * one()),
                ;
                lemma_half_even_whole((m * f) * t, one());
                lemma_half_even_whole(m * f, t as int);
            }
            push_large(&mut out, m, e - 1074);
            if places > 0 {
                out.push('.');
                push_padded(&mut out, 0, places);
            }
        }
        out
    }

    /// The value as a whole number, halves away from zero, cut to what fits.
    pub fn round_u64(self) -> (r: u64)
        ensures
            r == self.rounded(),
    {
        if self.is_nan() || self.is_negative() {
            return 0;
        }
        let k: u64 = self.rank_bits();
        if k == INF {
            return u64::MAX;
        }
        match whole_part(k, true) {
            Some(n) => n,
            None => u64::MAX,
        }
    }

    /// The whole part of the value, cut to what fits.
    pub fn trunc_u32(self) -> (r: u32)
        ensures
            r == self.truncated(),
    {
        if self.is_nan() || self.is_negative() {
            return 0;
        }
        let k: u64 = self.rank_bits();
        if k == INF {
            return u32::MAX;
        }
        proof {
            lemma_pow2_pos(1074);
            let a: int = magnitude(k as int);
            lemma_cancel(a, one(), 2);
            assert(2 * a == a * 2 && 2 * one() == one() * 2);
        }
        match whole_part(k, false) {
            Some(n) => if n > u32::MAX as u64 {
                u32::MAX
            } else {
                n as u32
            },
            None => u32::MAX,
        }
    }
}

/// The whole part of a finite magnitude, plus a half where wanted; none if it does not fit.
fn whole_part(k: u64, half: bool) -> (r: Option<u64>)
    requires
        k < INF,
    ensures
        ({
            let n = (2 * magnitude(k as int) + if half {
                one()
            } else {
                0
            }) / (2 * one());
            match r {
                Some(v) => v == n,
                None => n > u64::MAX,
            }
        }),
{
    let (m, e) = decode(k);
    let ghost a: int = magnitude(k as int);
    let ghost h: int = if half { one() } else { 0 };
    proof {
        lemma_pow2_pos(1074);
        lemma_pow2_127();
    }
    if e >= 1074 {
        let s: u64 = e - 1074;
        let ghost f: int = pow2(s as nat) as int;
        proof {
            lemma_pow2_adds(s as nat, 1074);
            lemma_pow2_pos(s as nat);
            let v: int = m * f;
            assert(2 * a + h == v * (2 * one()) + h) by (nonlinear_arith)
                requires
                    a == m * (f * one()),
                    v == m * f,
            ;
            lemma_fundamental_div_mod_converse(2 * a + h, 2 * one(), v, h);
        }
        if s >= 12 {
            proof {
                if s > 12 {
                    lemma_pow2_strictly_increases(12, s as nat);
                }
                vstd::arithmetic::power2::lemma2_to64();
                assert(m * f >= 0x1_0000_0000_0000_0000) by (nonlinear_arith)
                    requires
                        m >= 0x10_0000_0000_0000,
                        f >= 4096,
                ;
            }
            return None;
        }
        let p: u128 = power_of_two(s);
        proof {
            vstd::arithmetic::power2::lemma2_to64();
            if s < 11 {
                lemma_pow2_strictly_increases(s as nat, 11);
            }
            assert(m * p <= 0xffff_ffff_ffff_ffff) by (nonlinear_arith)
                requires
                    m <= 0x1f_ffff_ffff_ffff,
                    0 < p <= 2048,
            ;
        }
        return Some((m as u128 * p) as u64);
    }
    let d: u64 = 1074 - e;
    let ghost f: int = pow2(e as nat) as int;
    let ghost w: int = pow2(d as nat) as int;
    let ghost hw: int = if half { w } else { 0 };
    proof {
        lemma_pow2_pos(e as nat);
        lemma_pow2_pos(d as nat);
        lemma_pow2_adds(d as nat, e as nat);
        assert(2 * a + h == (2 * m + hw) * f && 2 * one() == (2 * w) * f) by (nonlinear_arith)
            requires
                a == m * f,
                one() == w * f,
                half ==> h == one() && hw == w,
                !half ==> h == 0 && hw == 0,
        ;
        lemma_cancel(2 * m + hw, 2 * w, f);
    }
    if d >= 64 {
        proof {
            if d > 64 {
                lemma_pow2_strictly_increases(64, d as nat);
            }
            lemma_fundamental_div_mod_converse(2 * m + hw, 2 * w, 0, 2 * m + hw);
        }
        return Some(0);
    }
    let p: u128 = power_of_two(d);
    proof {
        lemma_pow2_strictly_increases(d as nat, 64);
        lemma_fundamental_div_mod(2 * m + hw, 2 * w);
        let q: int = (2 * m + hw) / (2 * w);
        assert(q <= m + 1) by (nonlinear_arith)
            requires
                2 * m + hw == (2 * w) * q + (2 * m + hw) % (2 * w),
                (2 * m + hw) % (2 * w) >= 0,
                hw <= w,
                w >= 1,
                m >= 0,
        ;
    }
    let top: u128 = if half {
        2 * m as u128 + p
    } else {
        2 * m as u128
    };
    Some((top / (2 * p)) as u64)
}

} // verus!
