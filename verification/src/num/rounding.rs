//! Rounding of exact quotients to `binary64` magnitudes.
//!
//! Every finite number is a whole multiple of the smallest positive one, so its magnitude is a
//! natural number of *units*. The magnitudes, in increasing order, are numbered by their
//! *rank*, which is the bit pattern without its sign.

use vstd::arithmetic::power2::{
    lemma_pow2_adds, lemma_pow2_pos, lemma_pow2_strictly_increases, lemma_pow2_unfold, pow2,
};
use vstd::prelude::*;

verus! {

/// Number of ranks that share one exponent.
pub const STEP: u64 = 0x0010_0000_0000_0000;

/// Rank of infinity. Ranks above it are not numbers.
pub const INF: u64 = 0x7ff0_0000_0000_0000;

/// Weight of the sign in the bit pattern.
pub const SIGN: u64 = 0x8000_0000_0000_0000;

/// Units in the magnitude of rank `k`. Infinity takes the place that the next larger
/// exponent would have.
pub open spec fn magnitude(k: int) -> int {
    if k / STEP as int == 0 {
        k % STEP as int
    } else {
        (STEP + k % STEP as int) * pow2((k / STEP as int - 1) as nat)
    }
}

/// Whether `k` is the rank that the quotient `num / den`, in units, rounds to: the quotient
/// lies between the midpoints towards both neighbours, and a midpoint goes to the even rank.
pub open spec fn is_nearest(k: int, num: int, den: int) -> bool {
    &&& 0 <= k <= INF
    &&& k > 0 ==> {
        let mid = (magnitude(k - 1) + magnitude(k)) * den;
        2 * num > mid || (2 * num == mid && k % 2 == 0)
    }
    &&& k < INF ==> {
        let mid = (magnitude(k) + magnitude(k + 1)) * den;
        2 * num < mid || (2 * num == mid && k % 2 == 0)
    }
}

/// The rank that `num / den` rounds to.
pub open spec fn nearest(num: int, den: int) -> int {
    choose|k: int| is_nearest(k, num, den)
}

/// Distance, in units, from the magnitude of rank `k` to the next one.
pub proof fn lemma_gap(k: int)
    requires
        0 <= k < INF,
    ensures
        magnitude(k + 1) - magnitude(k) == pow2(
            (if k < STEP { 0 } else { k / STEP as int - 1 }) as nat,
        ),
        magnitude(k + 1) > magnitude(k),
{
    let e: int = k / STEP as int;
    let f: int = k % STEP as int;
    assert(k == e * STEP + f);
    if f == STEP - 1 {
        assert((k + 1) / STEP as int == e + 1 && (k + 1) % STEP as int == 0);
        if e == 0 {
            assert(pow2(0) == 1) by {
                vstd::arithmetic::power2::lemma2_to64();
            }
        } else {
            lemma_pow2_unfold(e as nat);
            assert(STEP * pow2(e as nat) - (STEP + f) * pow2((e - 1) as nat) == pow2((e - 1) as nat))
                by (nonlinear_arith)
                requires
                    pow2(e as nat) == 2 * pow2((e - 1) as nat),
                    f == STEP - 1,
            ;
        }
    } else {
        assert((k + 1) / STEP as int == e && (k + 1) % STEP as int == f + 1);
        if e == 0 {
            assert(pow2(0) == 1) by {
                vstd::arithmetic::power2::lemma2_to64();
            }
        } else {
            let p: int = pow2((e - 1) as nat) as int;
            assert((STEP + (f + 1)) * p - (STEP + f) * p == p) by (nonlinear_arith);
        }
    }
    lemma_pow2_pos((if k < STEP { 0 } else { e - 1 }) as nat);
}

/// A larger rank has a larger magnitude.
pub proof fn lemma_magnitude_increases(i: int, j: int)
    requires
        0 <= i < j <= INF,
    ensures
        magnitude(i) < magnitude(j),
    decreases j - i,
{
    lemma_gap(j - 1);
    if i < j - 1 {
        lemma_magnitude_increases(i, j - 1);
    }
}

pub proof fn lemma_magnitude_order(i: int, j: int)
    requires
        0 <= i <= INF,
        0 <= j <= INF,
    ensures
        magnitude(i) < magnitude(j) <==> i < j,
        magnitude(i) == magnitude(j) <==> i == j,
        magnitude(0) == 0,
        magnitude(i) >= 0,
{
    if i < j {
        lemma_magnitude_increases(i, j);
    } else if j < i {
        lemma_magnitude_increases(j, i);
    }
    if i > 0 {
        lemma_magnitude_increases(0, i);
    }
}

/// Two ranks cannot both be the one that a quotient rounds to.
proof fn lemma_nearest_ordered(a: int, b: int, num: int, den: int)
    requires
        den > 0,
        is_nearest(a, num, den),
        is_nearest(b, num, den),
    ensures
        a >= b,
{
    if a < b {
        lemma_magnitude_order(a, b - 1);
        lemma_magnitude_order(a + 1, b);
        let lo: int = magnitude(a) + magnitude(a + 1);
        let hi: int = magnitude(b - 1) + magnitude(b);
        if b == a + 1 {
            assert(false);
        } else {
            assert(lo < hi);
            assert(lo * den < hi * den) by (nonlinear_arith)
                requires
                    lo < hi,
                    den > 0,
            ;
        }
    }
}

/// A quotient rounds to one rank only.
pub proof fn lemma_nearest_unique(k: int, num: int, den: int)
    requires
        den > 0,
        is_nearest(k, num, den),
    ensures
        nearest(num, den) == k,
{
    let n: int = nearest(num, den);
    lemma_nearest_ordered(n, k, num, den);
    lemma_nearest_ordered(k, n, num, den);
}

/// A quotient between two neighbouring magnitudes rounds to one of them.
proof fn lemma_nearest_between(k: int, num: int, den: int, up: bool)
    requires
        den > 0,
        0 <= k < INF,
        magnitude(k) * den <= num < magnitude(k + 1) * den,
        up == {
            let mid = (magnitude(k) + magnitude(k + 1)) * den;
            2 * num > mid || (2 * num == mid && k % 2 == 1)
        },
    ensures
        is_nearest(if up { k + 1 } else { k }, num, den),
{
    let a: int = magnitude(k);
    let b: int = magnitude(k + 1);
    lemma_gap(k);
    if up {
        if k + 1 < INF {
            lemma_gap(k + 1);
            let c: int = magnitude(k + 2);
            assert(2 * num < (b + c) * den) by (nonlinear_arith)
                requires
                    num < b * den,
                    b < c,
                    den > 0,
            ;
        }
    } else if k > 0 {
        lemma_gap(k - 1);
        let z: int = magnitude(k - 1);
        assert(2 * num > (z + a) * den) by (nonlinear_arith)
            requires
                a * den <= num,
                z < a,
                den > 0,
        ;
    }
}

/// A quotient that is a magnitude rounds to it.
pub proof fn lemma_nearest_exact(k: int, num: int, den: int)
    requires
        den > 0,
        0 <= k <= INF,
        if k < INF { num == magnitude(k) * den } else { num >= magnitude(k) * den },
    ensures
        is_nearest(k, num, den),
{
    let a: int = magnitude(k);
    if k < INF {
        lemma_gap(k);
        let b: int = magnitude(k + 1);
        assert(2 * num < (a + b) * den) by (nonlinear_arith)
            requires
                num == a * den,
                a < b,
                den > 0,
        ;
    }
    if k > 0 {
        lemma_gap(k - 1);
        let z: int = magnitude(k - 1);
        assert(2 * num > (z + a) * den) by (nonlinear_arith)
            requires
                num >= a * den,
                z < a,
                den > 0,
        ;
    }
}

/// The rank made of an exponent and a significand has the magnitude that they spell.
pub(crate) proof fn lemma_encode(u: int, q: int)
    requires
        0 <= u,
        0 <= q <= 2 * STEP,
        u > 0 ==> q >= STEP,
    ensures
        magnitude(u * STEP + q) == q * pow2(u as nat),
{
    let k: int = u * STEP + q;
    if q < STEP {
        assert(k / STEP as int == 0 && k % STEP as int == q);
        assert(pow2(0) == 1) by {
            vstd::arithmetic::power2::lemma2_to64();
        }
        assert(q * 1 == q);
        assert(u == 0);
    } else if q < 2 * STEP {
        assert(k / STEP as int == u + 1 && k % STEP as int == q - STEP);
    } else {
        assert(k / STEP as int == u + 2 && k % STEP as int == 0);
        lemma_pow2_unfold((u + 1) as nat);
        assert(STEP * pow2((u + 1) as nat) == q * pow2(u as nat)) by (nonlinear_arith)
            requires
                pow2((u + 1) as nat) == 2 * pow2(u as nat),
                q == 2 * STEP,
        ;
    }
}

/// Splits a finite rank into significand and exponent.
pub(crate) fn decode(k: u64) -> (r: (u64, u64))
    requires
        k < INF,
    ensures
        r.0 < 2 * STEP,
        r.1 <= 2045,
        r.1 > 0 ==> r.0 >= STEP,
        k == r.1 * STEP + r.0,
        magnitude(k as int) == r.0 * pow2(r.1 as nat),
{
    let e: u64 = k / STEP;
    let f: u64 = k % STEP;
    if e == 0 {
        proof {
            lemma_encode(0, f as int);
        }
        (f, 0)
    } else {
        proof {
            lemma_encode(e - 1, STEP + f);
        }
        (STEP + f, e - 1)
    }
}

/// Two to the power `n`.
pub(crate) fn power_of_two(n: u64) -> (r: u128)
    requires
        n <= 127,
    ensures
        r == pow2(n as nat),
{
    let mut r: u128 = 1;
    let mut i: u64 = 0;
    proof {
        vstd::arithmetic::power2::lemma2_to64();
        lemma_pow2_127();
    }
    while i < n
        invariant
            i <= n <= 127,
            r == pow2(i as nat),
            pow2(127) == 0x8000_0000_0000_0000_0000_0000_0000_0000,
        decreases n - i,
    {
        proof {
            lemma_pow2_unfold((i + 1) as nat);
            if i + 1 < 127 {
                lemma_pow2_strictly_increases((i + 1) as nat, 127);
            }
        }
        r = r * 2;
        i = i + 1;
    }
    r
}

pub proof fn lemma_pow2_127()
    ensures
        pow2(127) == 0x8000_0000_0000_0000_0000_0000_0000_0000,
        pow2(64) == 0x1_0000_0000_0000_0000,
        pow2(53) == 2 * STEP,
        pow2(52) == STEP,
{
    vstd::arithmetic::power2::lemma2_to64();
    vstd::arithmetic::power2::lemma2_to64_rest();
    lemma_pow2_adds(64, 63);
}

/// Number of binary digits of `m`.
fn binary_digits(m: u128) -> (n: u64)
    requires
        0 < m < 0x8000_0000_0000_0000_0000_0000_0000_0000,
    ensures
        1 <= n <= 127,
        pow2((n - 1) as nat) <= m < pow2(n as nat),
{
    let mut n: u64 = 1;
    let mut p: u128 = 2;
    proof {
        vstd::arithmetic::power2::lemma2_to64();
        lemma_pow2_127();
    }
    while p <= m
        invariant
            1 <= n <= 127,
            p == pow2(n as nat),
            pow2((n - 1) as nat) <= m,
            m < 0x8000_0000_0000_0000_0000_0000_0000_0000,
            pow2(127) == 0x8000_0000_0000_0000_0000_0000_0000_0000,
        decreases 127 - n,
    {
        proof {
            lemma_pow2_unfold((n + 1) as nat);
        }
        p = p * 2;
        n = n + 1;
    }
    n
}

/// Power of two with the exponent `e`, or one where `e` is negative.
pub open spec fn up(e: int) -> int {
    if e >= 0 {
        pow2(e as nat) as int
    } else {
        1
    }
}

/// Power of two with the exponent `-e`, or one where `e` is positive.
pub open spec fn down(e: int) -> int {
    up(-e)
}

/// Whether `m` times two to the power `e` is the quotient `num / den`, cut off below `m`
/// exactly when `inexact`.
pub open spec fn scaled(m: int, e: int, inexact: bool, num: int, den: int) -> bool {
    &&& m * up(e) * den <= num * down(e) < (m + 1) * up(e) * den
    &&& inexact == (m * up(e) * den != num * down(e))
}

pub proof fn lemma_up_adds(a: int, b: int)
    requires
        a >= 0,
    ensures
        pow2(a as nat) * up(b) * down(a + b) == up(a + b) * down(b),
        up(b) > 0,
        down(b) > 0,
{
    lemma_pow2_pos(a as nat);
    if b >= 0 {
        lemma_pow2_pos(b as nat);
        lemma_pow2_adds(a as nat, b as nat);
        assert(down(b) == 1) by {
            if b == 0 {
                vstd::arithmetic::power2::lemma2_to64();
            }
        }
        assert(down(a + b) == 1) by {
            if a + b == 0 {
                vstd::arithmetic::power2::lemma2_to64();
            }
        }
    } else {
        lemma_pow2_pos((-b) as nat);
        if a + b >= 0 {
            lemma_pow2_adds((a + b) as nat, (-b) as nat);
            assert(down(a + b) == 1) by {
                if a + b == 0 {
                    vstd::arithmetic::power2::lemma2_to64();
                }
            }
        } else {
            lemma_pow2_adds(a as nat, (-(a + b)) as nat);
        }
    }
}

/// Rounds `m` times two to the power `e`, cut off when `inexact`, to a rank.
pub(crate) fn round_scaled(
    m: u128,
    e: i64,
    inexact: bool,
    Ghost(num): Ghost<int>,
    Ghost(den): Ghost<int>,
) -> (k: u64)
    requires
        den > 0,
        0 < m < 0x8000_0000_0000_0000_0000_0000_0000_0000,
        -10_000 <= e <= 10_000,
        scaled(m as int, e as int, inexact, num, den),
        inexact ==> m >= 0x80_0000_0000_0000,
    ensures
        k <= INF,
        k == nearest(num, den),
{
    let len: u64 = binary_digits(m);
    let top: i64 = e + len as i64 - 53;
    let u: i64 = if top > 0 {
        top
    } else {
        0
    };
    let s: i64 = u - e;
    let ghost p: int = up(e as int);
    let ghost n: int = down(e as int);
    proof {
        lemma_up_adds(0, e as int);
        lemma_pow2_127();
        if inexact && len <= 55 {
            if len < 55 {
                lemma_pow2_strictly_increases(len as nat, 55);
            }
            vstd::arithmetic::power2::lemma2_to64_rest();
            assert(false);
        }
    }
    if u >= 2046 {
        proof {
            lemma_overflow(m as int, e as int, len as int, num, den);
            lemma_nearest_exact(INF as int, num, den);
            lemma_nearest_unique(INF as int, num, den);
        }
        return INF;
    }
    if s <= 0 {
        let f: u128 = power_of_two((-s) as u64);
        proof {
            lemma_shift_up(m as int, len as nat, (-s) as nat, u as int);
        }
        let q: u64 = (m * f) as u64;
        let k: u64 = u as u64 * STEP + q;
        proof {
            lemma_encode(u as int, q as int);
            lemma_pow2_adds((-s) as nat, u as nat);
            let fu: int = pow2(u as nat) as int;
            assert(n == 1) by {
                vstd::arithmetic::power2::lemma2_to64();
            }
            assert(num == q * fu * den) by (nonlinear_arith)
                requires
                    q == m * f,
                    p == f * fu,
                    n == 1,
                    m * p * den == num * n,
            ;
            lemma_nearest_exact(k as int, num, den);
            lemma_nearest_unique(k as int, num, den);
        }
        return k;
    }
    if s >= 128 {
        proof {
            lemma_vanishing(m as int, e as int, num, den);
            lemma_nearest_unique(0, num, den);
        }
        return 0;
    }
    let w: u128 = power_of_two(s as u64);
    let half: u128 = power_of_two((s - 1) as u64);
    proof {
        lemma_pow2_unfold(s as nat);
        lemma_shift_down(m as int, len as nat, s as nat, u as int);
    }
    let q: u128 = m / w;
    let rem: u128 = m % w;
    let carry: bool = rem > half || (rem == half && (inexact || q % 2 == 1));
    let k: u64 = u as u64 * STEP + q as u64;
    proof {
        lemma_encode(u as int, q as int);
        lemma_encode(u as int, q + 1);
        lemma_up_adds(s as int, e as int);
        assert(down(u as int) == 1) by {
            if u == 0 {
                vstd::arithmetic::power2::lemma2_to64();
            }
        }
        let fu: int = pow2(u as nat) as int;
        assert(w * p == fu * n);
        lemma_cut(m as int, w as int, half as int, q as int, rem as int, inexact, p, n, fu, num, den);
        assert(k % 2 == q % 2);
        lemma_nearest_between(k as int, num, den, carry);
        lemma_nearest_unique(if carry { k + 1 } else { k as int }, num, den);
    }
    if carry {
        k + 1
    } else {
        k
    }
}

/// What is cut off decides on which side of the midpoint a quotient lies.
proof fn lemma_cut(
    m: int,
    w: int,
    half: int,
    q: int,
    rem: int,
    inexact: bool,
    p: int,
    n: int,
    fu: int,
    num: int,
    den: int,
)
    requires
        den > 0,
        p > 0,
        n > 0,
        w == 2 * half,
        half > 0,
        m == q * w + rem,
        0 <= rem < w,
        w * p == fu * n,
        m * p * den <= num * n < (m + 1) * p * den,
        inexact == (m * p * den != num * n),
    ensures
        q * fu * den <= num < (q + 1) * fu * den,
        ({
            let mid = (q * fu + (q + 1) * fu) * den;
            &&& 2 * num > mid <==> rem > half || (rem == half && inexact)
            &&& 2 * num == mid <==> rem == half && !inexact
        }),
{
    let c: int = p * den;
    let x: int = num * n;
    assert(c > 0) by (nonlinear_arith)
        requires
            p > 0,
            den > 0,
            c == p * den,
    ;
    assert(m * p * den == m * c && (m + 1) * p * den == (m + 1) * c) by (nonlinear_arith)
        requires
            c == p * den,
    ;
    // The bounds and the midpoint, times `n`, as multiples of `c`.
    assert(q * fu * den * n == q * w * c) by (nonlinear_arith)
        requires
            w * p == fu * n,
            c == p * den,
    ;
    assert((q + 1) * fu * den * n == (q + 1) * w * c) by (nonlinear_arith)
        requires
            w * p == fu * n,
            c == p * den,
    ;
    let mid: int = (q * fu + (q + 1) * fu) * den;
    let cut: int = q * w + half;
    assert(mid * n == q * fu * den * n + (q + 1) * fu * den * n) by (nonlinear_arith)
        requires
            mid == (q * fu + (q + 1) * fu) * den,
    ;
    assert(q * w * c + (q + 1) * w * c == 2 * (cut * c)) by (nonlinear_arith)
        requires
            w == 2 * half,
            cut == q * w + half,
    ;
    assert(q * w * c <= m * c) by (nonlinear_arith)
        requires
            m == q * w + rem,
            rem >= 0,
            c > 0,
    ;
    assert((m + 1) * c <= (q + 1) * w * c) by (nonlinear_arith)
        requires
            m == q * w + rem,
            rem + 1 <= w,
            c > 0,
    ;
    assert(q * fu * den <= num) by (nonlinear_arith)
        requires
            q * fu * den * n <= num * n,
            n > 0,
    ;
    assert(num < (q + 1) * fu * den) by (nonlinear_arith)
        requires
            num * n < (q + 1) * fu * den * n,
            n > 0,
    ;
    assert((2 * num > mid) == (2 * x > mid * n) && (2 * num == mid) == (2 * x == mid * n))
        by (nonlinear_arith)
        requires
            x == num * n,
            n > 0,
    ;
    if rem < half {
        assert((m + 1) * c <= cut * c) by (nonlinear_arith)
            requires
                m + 1 <= cut,
                c > 0,
        ;
    } else if rem > half {
        assert(m * c > cut * c) by (nonlinear_arith)
            requires
                m > cut,
                c > 0,
        ;
    } else {
        assert(m == cut);
    }
}

/// A number with too many digits before the cut is beyond every finite magnitude.
proof fn lemma_overflow(m: int, e: int, len: int, num: int, den: int)
    requires
        den > 0,
        len >= 1,
        pow2((len - 1) as nat) <= m,
        e + len - 53 >= 2046,
        m * up(e) * den <= num * down(e),
        -10_000 <= e,
        len <= 127,
    ensures
        num >= magnitude(INF as int) * den,
{
    assert(magnitude(INF as int) == STEP * pow2(2046)) by {
        assert(INF as int / STEP as int == 2047 && INF as int % STEP as int == 0);
    }
    lemma_pow2_127();
    lemma_pow2_adds(52, 2046);
    assert(e >= 0);
    lemma_pow2_adds((len - 1) as nat, e as nat);
    if e + len - 1 > 2098 {
        lemma_pow2_strictly_increases(2098, (e + len - 1) as nat);
    }
    let p: int = pow2(e as nat) as int;
    let top: int = pow2((len - 1) as nat) as int;
    assert(down(e) == 1) by {
        if e == 0 {
            vstd::arithmetic::power2::lemma2_to64();
        }
    }
    lemma_pow2_pos(e as nat);
    assert(m * p * den >= top * p * den) by (nonlinear_arith)
        requires
            m >= top,
            p > 0,
            den > 0,
    ;
    let big: int = magnitude(INF as int);
    assert(top * p * den >= big * den) by (nonlinear_arith)
        requires
            top * p >= big,
            den > 0,
    ;
}

/// A short significand still fits after it is moved up to full length.
proof fn lemma_shift_up(m: int, len: nat, d: nat, u: int)
    requires
        0 < m,
        1 <= len,
        pow2((len - 1) as nat) <= m < pow2(len),
        len + d <= 53,
        u > 0 ==> len + d == 53,
    ensures
        0 < m * pow2(d) < 2 * STEP,
        u > 0 ==> m * pow2(d) >= STEP,
{
    lemma_pow2_127();
    lemma_pow2_adds(len, d);
    lemma_pow2_adds((len - 1) as nat, d);
    lemma_pow2_pos(d);
    if len + d < 53 {
        lemma_pow2_strictly_increases(len + d, 53);
    }
    let a: int = pow2(len) as int;
    let b: int = pow2((len - 1) as nat) as int;
    let c: int = pow2(d) as int;
    assert(b * c <= m * c < a * c && 0 < m * c) by (nonlinear_arith)
        requires
            b <= m < a,
            c > 0,
            m > 0,
    ;
}

/// A long significand is short enough after it is cut.
proof fn lemma_shift_down(m: int, len: nat, s: nat, u: int)
    requires
        0 < m,
        1 <= len,
        pow2((len - 1) as nat) <= m < pow2(len),
        1 <= s,
        len <= s + 53,
        u > 0 ==> len == s + 53,
    ensures
        pow2(s) > 0,
        0 <= m / (pow2(s) as int) < 2 * STEP,
        u > 0 ==> m / (pow2(s) as int) >= STEP,
        m == (m / (pow2(s) as int)) * pow2(s) + m % (pow2(s) as int),
        0 <= m % (pow2(s) as int) < pow2(s),
{
    lemma_pow2_pos(s);
    lemma_pow2_127();
    lemma_pow2_adds(s, 53);
    lemma_pow2_adds(s, 52);
    if len < s + 53 {
        lemma_pow2_strictly_increases(len, s + 53);
    }
    let w: int = pow2(s) as int;
    vstd::arithmetic::div_mod::lemma_fundamental_div_mod(m, w);
    let q: int = m / w;
    let r: int = m % w;
    assert(q < 2 * STEP) by (nonlinear_arith)
        requires
            m == w * q + r,
            0 <= r,
            m < w * (2 * STEP),
            w > 0,
    ;
    assert(0 <= q) by (nonlinear_arith)
        requires
            m == w * q + r,
            r < w,
            m > 0,
            w > 0,
    ;
    if u > 0 {
        assert(q >= STEP) by (nonlinear_arith)
            requires
                m == w * q + r,
                r < w,
                m >= w * STEP,
                w > 0,
        ;
    }
    assert(q * w == w * q) by (nonlinear_arith);
}

/// A number far below the smallest magnitude rounds to zero.
proof fn lemma_vanishing(m: int, e: int, num: int, den: int)
    requires
        den > 0,
        0 < m < 0x8000_0000_0000_0000_0000_0000_0000_0000,
        e <= -128,
        m * up(e) * den <= num * down(e) < (m + 1) * up(e) * den,
    ensures
        is_nearest(0, num, den),
{
    lemma_pow2_127();
    lemma_pow2_unfold(128);
    if -e > 128 {
        lemma_pow2_strictly_increases(128, (-e) as nat);
    }
    let n: int = down(e);
    let c: int = pow2(128) as int;
    assert(2 * num < den) by (nonlinear_arith)
        requires
            num * n < (m + 1) * 1 * den,
            2 * (m + 1) <= c <= n,
            den > 0,
            m > 0,
    ;
    assert(magnitude(0) == 0 && magnitude(1) == 1);
}

proof fn lemma_rounds_below(k: int, num: int, den: int)
    requires
        den > 0,
        num >= 0,
        0 <= k <= INF,
        num < magnitude(k) * den,
    ensures
        exists|n: int| is_nearest(n, num, den),
    decreases k,
{
    lemma_magnitude_order(0, k);
    assert(k > 0) by {
        assert(0 * den == 0);
    }
    if magnitude(k - 1) * den <= num {
        let mid: int = (magnitude(k - 1) + magnitude(k)) * den;
        let up: bool = 2 * num > mid || (2 * num == mid && (k - 1) % 2 == 1);
        lemma_nearest_between(k - 1, num, den, up);
    } else {
        lemma_rounds_below(k - 1, num, den);
    }
}

/// Every quotient rounds to some rank.
pub proof fn law_every_quotient_rounds(num: int, den: int)
    requires
        den > 0,
        num >= 0,
    ensures
        is_nearest(nearest(num, den), num, den),
{
    if num < magnitude(INF as int) * den {
        lemma_rounds_below(INF as int, num, den);
    } else {
        lemma_nearest_exact(INF as int, num, den);
    }
}

/// No magnitude is closer to a quotient than the one it rounds to.
pub proof fn law_nothing_is_closer(num: int, den: int, j: int)
    requires
        den > 0,
        num >= 0,
        0 <= j <= INF,
    ensures
        ({
            let a = magnitude(nearest(num, den)) * den - num;
            let b = magnitude(j) * den - num;
            (if a < 0 { -a } else { a }) <= (if b < 0 { -b } else { b })
        }),
{
    law_every_quotient_rounds(num, den);
    let k: int = nearest(num, den);
    let m: int = magnitude(k);
    let o: int = magnitude(j);
    if j < k {
        lemma_magnitude_order(j, k - 1);
        lemma_magnitude_order(k - 1, k);
        let z: int = magnitude(k - 1);
        assert((o + m) * den <= (z + m) * den) by (nonlinear_arith)
            requires
                o <= z,
                den > 0,
        ;
        assert((o + m) * den == o * den + m * den) by (nonlinear_arith);
        assert(o * den <= m * den) by (nonlinear_arith)
            requires
                o <= m,
                den > 0,
        ;
    } else if k < j {
        lemma_magnitude_order(k + 1, j);
        lemma_magnitude_order(k, k + 1);
        let z: int = magnitude(k + 1);
        assert((m + z) * den <= (m + o) * den) by (nonlinear_arith)
            requires
                z <= o,
                den > 0,
        ;
        assert((m + o) * den == m * den + o * den) by (nonlinear_arith);
        assert(m * den <= o * den) by (nonlinear_arith)
            requires
                m <= o,
                den > 0,
        ;
    }
}

} // verus!
