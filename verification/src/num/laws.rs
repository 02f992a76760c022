//! Arithmetic on whole numbers is exact as far as it can be.

use super::double::{lemma_whole_zero, one, Double};
use super::rounding::{
    is_nearest, law_every_quotient_rounds, lemma_encode, lemma_magnitude_order,
    lemma_nearest_exact, lemma_nearest_unique, magnitude, nearest, INF, STEP,
};
use vstd::arithmetic::power2::{lemma_pow2_adds, lemma_pow2_pos, lemma_pow2_unfold, pow2};
use vstd::prelude::*;

verus! {

/// The largest whole number up to which every whole number is represented.
pub const EXACT: i64 = 0x20_0000_0000_0000;

pub open spec fn distance(n: int) -> int {
    if n < 0 {
        -n
    } else {
        n
    }
}

/// The power of two at or below a number.
proof fn lemma_leading(n: int, e: nat) -> (r: nat)
    requires
        0 < n < pow2(e),
    ensures
        r < e,
        pow2(r) <= n < pow2(r + 1),
    decreases e,
{
    lemma_pow2_pos(e);
    if e == 0 {
        assert(pow2(0) == 1) by {
            vstd::arithmetic::power2::lemma2_to64();
        }
        0
    } else if pow2((e - 1) as nat) <= n {
        (e - 1) as nat
    } else {
        lemma_leading(n, (e - 1) as nat)
    }
}

/// A whole number up to the bound has a rank of its own.
proof fn lemma_representable(n: int) -> (k: int)
    requires
        0 <= n <= EXACT,
    ensures
        0 <= k < INF,
        magnitude(k) == n * one(),
{
    if n == 0 {
        assert(magnitude(0) == 0);
        assert(0 * one() == 0);
        0
    } else {
        assert(pow2(52) == 0x10_0000_0000_0000 && pow2(53) == 0x20_0000_0000_0000) by {
            vstd::arithmetic::power2::lemma2_to64();
            lemma_pow2_unfold(53);
            lemma_pow2_unfold(52);
            lemma_pow2_adds(32, 20);
            assert(0x1_0000_0000 * 0x10_0000 == 0x10_0000_0000_0000);
        }
        lemma_pow2_unfold(54);
        let e: nat = lemma_leading(n, 54);
        if e == 53 {
            assert(n == EXACT);
            let u: int = 1075;
            lemma_encode(u, STEP as int);
            lemma_pow2_adds(1, 1074);
            lemma_pow2_unfold(1);
            assert(pow2(0) == 1) by {
                vstd::arithmetic::power2::lemma2_to64();
            }
            assert(STEP * pow2(1075) == n * one()) by (nonlinear_arith)
                requires
                    pow2(1075) == 2 * one(),
                    n == 2 * STEP,
            ;
            u * STEP + STEP
        } else {
            let d: nat = (52 - e) as nat;
            let q: int = n * pow2(d);
            let u: int = (1022 + e) as int;
            lemma_pow2_adds(e, d);
            lemma_pow2_adds((e + 1) as nat, d);
            lemma_pow2_pos(d);
            assert(STEP <= q < 2 * STEP) by (nonlinear_arith)
                requires
                    pow2(e) <= n < pow2(e + 1),
                    pow2(e) * pow2(d) == STEP,
                    pow2((e + 1) as nat) * pow2(d) == 2 * STEP,
                    q == n * pow2(d),
                    pow2(d) > 0,
            ;
            lemma_encode(u, q);
            lemma_pow2_adds(d, u as nat);
            assert(q * pow2(u as nat) == n * one()) by (nonlinear_arith)
                requires
                    q == n * pow2(d),
                    pow2(d) * pow2(u as nat) == one(),
            ;
            u * STEP + q
        }
    }
}

/// A whole number up to 2^53 is represented exactly.
pub proof fn law_whole_numbers_are_exact(n: int)
    requires
        -EXACT <= n <= EXACT,
    ensures
        Double::whole(n).finite(),
        Double::whole(n).units() == n * one(),
        Double::whole(n).negative() == (n < 0),
{
    let a: int = distance(n);
    let k: int = lemma_representable(a);
    lemma_nearest_exact(k, a * one(), 1);
    lemma_nearest_unique(k, a * one(), 1);
    assert(-(a * one()) == (-a) * one()) by (nonlinear_arith);
}

/// Numbers that are whole, with either sign on a zero, are added like whole numbers.
pub proof fn lemma_sum_of_units(x: Double, y: Double, a: int, b: int)
    requires
        x.finite(),
        y.finite(),
        x.units() == a * one(),
        y.units() == b * one(),
        x.negative() && y.negative() ==> a + b != 0,
    ensures
        x.sum(y) == Double::whole(a + b),
{
    reveal(Double::sum);
    lemma_pow2_pos(1074);
    let s: int = a + b;
    assert(a * one() + b * one() == s * one()) by (nonlinear_arith)
        requires
            s == a + b,
    ;
    assert((s < 0 <==> s * one() < 0) && (s == 0 <==> s * one() == 0) && -(s * one()) == (-s)
        * one()) by (nonlinear_arith)
        requires
            one() > 0,
    ;
    if s == 0 {
        lemma_whole_zero();
    }
}

/// The sum of whole numbers is rounded once: it is the number nearest to the exact sum.
pub proof fn law_sums_of_whole_numbers(a: int, b: int)
    requires
        -EXACT <= a <= EXACT,
        -EXACT <= b <= EXACT,
    ensures
        Double::whole(a).sum(Double::whole(b)) == Double::whole(a + b),
{
    law_whole_numbers_are_exact(a);
    law_whole_numbers_are_exact(b);
    lemma_sum_of_units(Double::whole(a), Double::whole(b), a, b);
}

/// The opposite of a whole number has the opposite value.
pub proof fn lemma_opposite_units(n: int)
    requires
        -EXACT <= n <= EXACT,
    ensures
        Double::whole(n).opposite().finite(),
        Double::whole(n).opposite().units() == (-n) * one(),
        Double::whole(n).opposite().negative() == (n >= 0),
{
    law_whole_numbers_are_exact(n);
    let x: Double = Double::whole(n);
    let y: Double = x.opposite();
    assert(y.rank() == x.rank() && y.negative() == !x.negative());
    assert(y.units() == -x.units());
    let u: int = one();
    assert((-n) * u == -(n * u)) by (nonlinear_arith);
}

/// A common factor does not change what a quotient rounds to.
proof fn lemma_nearest_scale(num: int, den: int, c: int)
    requires
        num >= 0,
        den > 0,
        c > 0,
    ensures
        nearest(num * c, den * c) == nearest(num, den),
{
    law_every_quotient_rounds(num, den);
    let k: int = nearest(num, den);
    assert(den * c > 0) by (nonlinear_arith)
        requires
            den > 0,
            c > 0,
    ;
    if k > 0 {
        let m: int = magnitude(k - 1) + magnitude(k);
        lemma_scaled_order(2 * num, m * den, c);
        assert(m * (den * c) == (m * den) * c && 2 * (num * c) == (2 * num) * c)
            by (nonlinear_arith);
    }
    if k < INF {
        let m: int = magnitude(k) + magnitude(k + 1);
        lemma_scaled_order(2 * num, m * den, c);
        assert(m * (den * c) == (m * den) * c && 2 * (num * c) == (2 * num) * c)
            by (nonlinear_arith);
    }
    assert(is_nearest(k, num * c, den * c));
    lemma_nearest_unique(k, num * c, den * c);
}

proof fn lemma_scaled_order(x: int, y: int, c: int)
    requires
        c > 0,
    ensures
        x < y <==> x * c < y * c,
        x == y <==> x * c == y * c,
{
    assert((x < y <==> x * c < y * c) && (x == y <==> x * c == y * c)) by (nonlinear_arith)
        requires
            c > 0,
    ;
}

/// The product of whole numbers that are not zero is rounded once: it is the number nearest to
/// the exact product.
pub proof fn law_products_of_whole_numbers(a: int, b: int)
    requires
        -EXACT <= a <= EXACT,
        -EXACT <= b <= EXACT,
        a != 0,
        b != 0,
    ensures
        Double::whole(a).product(Double::whole(b)) == Double::whole(a * b),
{
    reveal(Double::product);
    law_whole_numbers_are_exact(a);
    law_whole_numbers_are_exact(b);
    lemma_pow2_pos(1074);
    let x: int = distance(a);
    let y: int = distance(b);
    let p: int = distance(a * b);
    assert(p == x * y && (a * b < 0 <==> (a < 0) != (b < 0))) by (nonlinear_arith)
        requires
            a != 0,
            b != 0,
            x == (if a < 0 { -a } else { a }),
            y == (if b < 0 { -b } else { b }),
            p == (if a * b < 0 { -(a * b) } else { a * b }),
    ;
    lemma_units_distance(a);
    lemma_units_distance(b);
    assert((x * one()) * (y * one()) == (p * one()) * one()) by (nonlinear_arith)
        requires
            p == x * y,
    ;
    assert(p * one() >= 0) by (nonlinear_arith)
        requires
            p >= 0,
            one() > 0,
    ;
    lemma_nearest_scale(p * one(), 1, one());
    assert(1 * one() == one());
}

/// The magnitude of a whole number, in units.
proof fn lemma_units_distance(n: int)
    requires
        -EXACT <= n <= EXACT,
    ensures
        magnitude(Double::whole(n).rank()) == distance(n) * one(),
{
    law_whole_numbers_are_exact(n);
    assert(-(n * one()) == (-n) * one()) by (nonlinear_arith);
}

/// A hundredth of a whole number is the number nearest to it, which is what its decimal
/// literal denotes.
pub proof fn law_hundredths_are_nearest(n: int)
    requires
        -EXACT <= n <= EXACT,
    ensures
        Double::percent(n) == Double::of(n < 0, nearest(distance(n) * one(), 100)),
{
    reveal(Double::quotient);
    law_whole_numbers_are_exact(n);
    law_whole_numbers_are_exact(100);
    lemma_units_distance(n);
    lemma_units_distance(100);
    lemma_pow2_pos(1074);
    let x: int = distance(n);
    assert(x * one() >= 0) by (nonlinear_arith)
        requires
            x >= 0,
            one() > 0,
    ;
    lemma_nearest_scale(x * one(), 100, one());
    let rank: int = Double::whole(100).rank();
    assert(rank != 0) by {
        assert(magnitude(0) == 0);
        assert(100 * one() > 0);
    }
}

// ── Values that are whole ───────────────────────────────────────────────────

/// Whether a number has a whole value. Zero may have either sign.
pub open spec fn is_whole(x: Double, n: int) -> bool {
    x.finite() && x.units() == n * one()
}

/// The magnitude of a number with a whole value.
proof fn lemma_whole_magnitude(x: Double, n: int)
    requires
        is_whole(x, n),
    ensures
        magnitude(x.rank()) == distance(n) * one(),
        n > 0 ==> !x.negative(),
        n < 0 ==> x.negative(),
{
    lemma_pow2_pos(1074);
    lemma_magnitude_order(x.rank(), 0);
    assert(-(n * one()) == (-n) * one() && (n > 0 ==> n * one() > 0) && (n < 0 ==> n * one() < 0))
        by (nonlinear_arith)
        requires
            one() > 0,
    ;
}

/// A whole number has its value.
pub proof fn lemma_whole_is_whole(n: int)
    requires
        -EXACT <= n <= EXACT,
    ensures
        is_whole(Double::whole(n), n),
{
    law_whole_numbers_are_exact(n);
}

/// A number with a whole value is that whole number, unless it is a negative zero.
pub proof fn lemma_whole_is_unique(x: Double, n: int)
    requires
        -EXACT <= n <= EXACT,
        is_whole(x, n),
        n != 0 || !x.negative(),
    ensures
        x == Double::whole(n),
{
    law_whole_numbers_are_exact(n);
    lemma_whole_magnitude(x, n);
    lemma_whole_magnitude(Double::whole(n), n);
    lemma_magnitude_order(x.rank(), Double::whole(n).rank());
}

/// Whole values are added exactly.
pub proof fn lemma_whole_sum(x: Double, y: Double, a: int, b: int)
    requires
        is_whole(x, a),
        is_whole(y, b),
        -EXACT <= a + b <= EXACT,
    ensures
        is_whole(x.sum(y), a + b),
        !x.negative() || !y.negative() ==> x.sum(y) == Double::whole(a + b),
{
    if x.negative() && y.negative() && a + b == 0 {
        reveal(Double::sum);
        lemma_whole_magnitude(x, a);
        lemma_whole_magnitude(y, b);
        assert(a == 0 && b == 0);
        assert(magnitude(0) == 0);
        assert(0 * one() == 0);
    } else {
        lemma_sum_of_units(x, y, a, b);
        lemma_whole_is_whole(a + b);
    }
}

/// Whole values are multiplied exactly.
pub proof fn lemma_whole_product(x: Double, y: Double, a: int, b: int)
    requires
        is_whole(x, a),
        is_whole(y, b),
        -EXACT <= a * b <= EXACT,
    ensures
        is_whole(x.product(y), a * b),
        x.product(y).negative() == (x.negative() != y.negative()),
        a * b != 0 || x.negative() == y.negative() ==> x.product(y) == Double::whole(a * b),
{
    reveal(Double::product);
    lemma_pow2_pos(1074);
    lemma_whole_magnitude(x, a);
    lemma_whole_magnitude(y, b);
    let u: int = distance(a);
    let v: int = distance(b);
    let p: int = distance(a * b);
    assert(p == u * v && (a * b < 0 <==> (a < 0 && b > 0) || (a > 0 && b < 0)) && (a * b == 0 <==> a
        == 0 || b == 0)) by (nonlinear_arith)
        requires
            u == (if a < 0 { -a } else { a }),
            v == (if b < 0 { -b } else { b }),
            p == (if a * b < 0 { -(a * b) } else { a * b }),
    ;
    assert((u * one()) * (v * one()) == (p * one()) * one()) by (nonlinear_arith)
        requires
            p == u * v,
    ;
    assert(p * one() >= 0) by (nonlinear_arith)
        requires
            p >= 0,
            one() > 0,
    ;
    lemma_nearest_scale(p * one(), 1, one());
    assert(1 * one() == one());
    let k: int = lemma_representable(p);
    lemma_nearest_exact(k, p * one(), 1);
    lemma_nearest_unique(k, p * one(), 1);
    let negative: bool = x.negative() != y.negative();
    let r: Double = Double::of(negative, k);
    assert(r.rank() == k && r.negative() == negative);
    assert(x.product(y) == r);
    assert(-(p * one()) == (-p) * one()) by (nonlinear_arith);
    if a * b == 0 {
        assert(p == 0);
        assert(0 * one() == 0);
    }
    assert(is_whole(r, a * b));
    if a * b != 0 || !negative {
        lemma_whole_is_unique(r, a * b);
    }
}

/// Whole values are divided exactly where the quotient is whole.
pub proof fn lemma_whole_quotient(x: Double, y: Double, a: int, b: int)
    requires
        is_whole(x, a * b),
        is_whole(y, b),
        b != 0,
        -EXACT <= a <= EXACT,
    ensures
        is_whole(x.quotient(y), a),
        x.quotient(y).negative() == (x.negative() != y.negative()),
        a != 0 || x.negative() == y.negative() ==> x.quotient(y) == Double::whole(a),
{
    reveal(Double::quotient);
    lemma_pow2_pos(1074);
    lemma_whole_magnitude(x, a * b);
    lemma_whole_magnitude(y, b);
    let u: int = distance(a);
    let v: int = distance(b);
    let p: int = distance(a * b);
    assert(p == u * v && (a * b < 0 <==> (a < 0 && b > 0) || (a > 0 && b < 0)) && v > 0)
        by (nonlinear_arith)
        requires
            b != 0,
            u == (if a < 0 { -a } else { a }),
            v == (if b < 0 { -b } else { b }),
            p == (if a * b < 0 { -(a * b) } else { a * b }),
    ;
    let den: int = v * one();
    assert((p * one()) * one() == (u * one()) * den && 1 * den == den && u * one() >= 0 && den > 0)
        by (nonlinear_arith)
        requires
            p == u * v,
            den == v * one(),
            v > 0,
            u >= 0,
            one() > 0,
    ;
    lemma_nearest_scale(u * one(), 1, den);
    let k: int = lemma_representable(u);
    lemma_nearest_exact(k, u * one(), 1);
    lemma_nearest_unique(k, u * one(), 1);
    assert(y.rank() != 0) by {
        assert(magnitude(0) == 0);
    }
    let negative: bool = x.negative() != y.negative();
    let r: Double = Double::of(negative, k);
    assert(r.rank() == k && r.negative() == negative);
    assert(x.quotient(y) == r);
    assert(-(u * one()) == (-u) * one()) by (nonlinear_arith);
    if a == 0 {
        assert(0 * one() == 0);
    }
    assert(is_whole(r, a)) by {
        if a != 0 {
            assert(a * b != 0) by (nonlinear_arith)
                requires
                    a != 0,
                    b != 0,
            ;
            assert(negative == (a < 0));
        }
    }
    if a != 0 || !negative {
        lemma_whole_is_unique(r, a);
    }
}

/// The opposite of a whole value.
pub proof fn lemma_whole_opposite(x: Double, n: int)
    requires
        is_whole(x, n),
    ensures
        is_whole(x.opposite(), -n),
        x.opposite().negative() == !x.negative(),
        x.opposite().rank() == x.rank(),
{
    assert(-(n * one()) == (-n) * one()) by (nonlinear_arith);
}

/// A whole value without its sign.
pub proof fn lemma_whole_absolute(x: Double, n: int)
    requires
        is_whole(x, n),
    ensures
        is_whole(x.absolute(), distance(n)),
        -EXACT <= n <= EXACT ==> x.absolute() == Double::whole(distance(n)),
{
    lemma_whole_magnitude(x, n);
    assert(x.absolute().rank() == x.rank() && !x.absolute().negative());
    if -EXACT <= n <= EXACT {
        lemma_whole_is_unique(x.absolute(), distance(n));
    }
}

/// Whole values are ordered like whole numbers.
pub proof fn lemma_whole_order(x: Double, y: Double, a: int, b: int)
    requires
        is_whole(x, a),
        is_whole(y, b),
    ensures
        x.at_most(y) <==> a <= b,
        x.below(y) <==> a < b,
{
    lemma_pow2_pos(1074);
    assert((a <= b <==> a * one() <= b * one()) && (a < b <==> a * one() < b * one()))
        by (nonlinear_arith)
        requires
            one() > 0,
    ;
}

// ── Order of what is rounded ────────────────────────────────────────────────

/// What is not smaller does not round to something smaller.
pub proof fn lemma_nearest_monotone(a: int, b: int, den: int)
    requires
        0 <= a <= b,
        den > 0,
    ensures
        nearest(a, den) <= nearest(b, den),
{
    law_every_quotient_rounds(a, den);
    law_every_quotient_rounds(b, den);
    let i: int = nearest(a, den);
    let j: int = nearest(b, den);
    if i > j {
        lemma_magnitude_order(j, i - 1);
        lemma_magnitude_order(j + 1, i);
        let lo: int = magnitude(j) + magnitude(j + 1);
        let hi: int = magnitude(i - 1) + magnitude(i);
        assert(lo * den <= hi * den) by (nonlinear_arith)
            requires
                lo <= hi,
                den > 0,
        ;
        if i > j + 1 {
            assert(lo * den < hi * den) by (nonlinear_arith)
                requires
                    lo < hi,
                    den > 0,
            ;
        }
    }
}

/// A product has the opposite value where one of its factors has.
pub proof fn lemma_product_of_opposite(x: Double, y: Double)
    ensures
        x.product(y).nan() <==> x.opposite().product(y).nan(),
        !x.product(y).nan() ==> x.opposite().product(y) == x.product(y).opposite(),
{
    reveal(Double::product);
    assert(x.opposite().rank() == x.rank() && x.opposite().negative() == !x.negative());
    if x.finite() && y.finite() {
        lemma_pow2_pos(1074);
        let u: int = magnitude(x.rank());
        let v: int = magnitude(y.rank());
        lemma_magnitude_order(x.rank(), 0);
        lemma_magnitude_order(y.rank(), 0);
        assert(u * v >= 0) by (nonlinear_arith)
            requires
                u >= 0,
                v >= 0,
        ;
        law_every_quotient_rounds(u * v, one());
        let k: int = nearest(u * v, one());
        assert(Double::of(true, k).rank() == k && Double::of(true, k).negative());
        assert(Double::of(false, k).rank() == k && !Double::of(false, k).negative());
    }
}

// ── From numbers to whole numbers ───────────────────────────────────────────

/// A number is rounded to the whole number nearest to it, a half away from zero; what is negative
/// or not a number to zero, and what is too large to the largest one.
pub proof fn law_rounding_is_to_the_nearest(x: Double)
    ensures
        x.nan() || x.negative() ==> x.rounded() == 0,
        !x.nan() && !x.negative() && x.infinite() ==> x.rounded() == u64::MAX,
        0 <= x.rounded() <= u64::MAX,
        x.finite() && !x.negative() && x.rounded() < u64::MAX ==> 2 * (x.rounded() * one()
            - x.units()) <= one() && 2 * (x.units() - x.rounded() * one()) < one(),
        x.finite() && !x.negative() && x.rounded() == u64::MAX ==> 2 * (u64::MAX * one()
            - x.units()) <= one(),
{
    if x.finite() && !x.negative() {
        lemma_pow2_pos(1074);
        lemma_magnitude_order(x.rank(), 0);
        let m: int = magnitude(x.rank());
        let a: int = 2 * m + one();
        let b: int = 2 * one();
        let n: int = a / b;
        vstd::arithmetic::div_mod::lemma_fundamental_div_mod(a, b);
        vstd::arithmetic::div_mod::lemma_mod_bound(a, b);
        assert(b * n == 2 * (n * one())) by (nonlinear_arith)
            requires
                b == 2 * one(),
        ;
        assert(n >= 0) by (nonlinear_arith)
            requires
                a >= 0,
                b > 0,
                n == a / b,
        ;
        if n > u64::MAX {
            assert(u64::MAX * one() <= n * one()) by (nonlinear_arith)
                requires
                    n > u64::MAX,
                    one() > 0,
            ;
        }
    }
}

/// The whole part of a number is the largest whole number that is not above it; that of what is
/// negative or not a number is zero, and that of what is too large is the largest one.
pub proof fn law_whole_parts_are_cut_down(x: Double)
    ensures
        x.nan() || x.negative() ==> x.truncated() == 0,
        !x.nan() && !x.negative() && x.infinite() ==> x.truncated() == u32::MAX,
        0 <= x.truncated() <= u32::MAX,
        x.finite() && !x.negative() ==> x.truncated() * one() <= x.units(),
        x.finite() && !x.negative() && x.truncated() < u32::MAX ==> x.units() < (x.truncated() + 1)
            * one(),
{
    if x.finite() && !x.negative() {
        lemma_pow2_pos(1074);
        lemma_magnitude_order(x.rank(), 0);
        let m: int = magnitude(x.rank());
        let n: int = m / one();
        vstd::arithmetic::div_mod::lemma_fundamental_div_mod(m, one());
        vstd::arithmetic::div_mod::lemma_mod_bound(m, one());
        assert(one() * n == n * one() && (n + 1) * one() == n * one() + one()) by (nonlinear_arith);
        assert(n >= 0) by (nonlinear_arith)
            requires
                m >= 0,
                one() > 0,
                n == m / one(),
        ;
        if n > u32::MAX {
            assert(u32::MAX * one() <= n * one()) by (nonlinear_arith)
                requires
                    n > u32::MAX,
                    one() > 0,
            ;
        }
    }
}

/// A whole value is rounded to itself, and is its own whole part.
pub proof fn lemma_whole_rounded(x: Double, n: int)
    requires
        is_whole(x, n),
        0 <= n <= EXACT,
        n > 0 || !x.negative(),
    ensures
        x.rounded() == n,
        n <= u32::MAX ==> x.truncated() == n,
{
    lemma_whole_magnitude(x, n);
    lemma_pow2_pos(1074);
    law_rounding_is_to_the_nearest(x);
    law_whole_parts_are_cut_down(x);
    let r: int = x.rounded();
    let t: int = x.truncated();
    assert(r == u64::MAX ==> false) by (nonlinear_arith)
        requires
            one() > 0,
            n <= 0x20_0000_0000_0000,
            r == u64::MAX ==> 2 * (u64::MAX * one() - n * one()) <= one(),
    ;
    assert(r == n) by (nonlinear_arith)
        requires
            one() > 0,
            2 * (r * one() - n * one()) <= one(),
            2 * (n * one() - r * one()) < one(),
    ;
    if n <= u32::MAX {
        if t < u32::MAX {
            assert(t == n) by (nonlinear_arith)
                requires
                    one() > 0,
                    t * one() <= n * one(),
                    n * one() < (t + 1) * one(),
            ;
        } else {
            assert(t <= n) by (nonlinear_arith)
                requires
                    one() > 0,
                    t * one() <= n * one(),
            ;
        }
    }
}

} // verus!
