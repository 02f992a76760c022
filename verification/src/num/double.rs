//! Binary floating-point numbers, as arithmetic on their bit patterns.
//!
//! A [`Double`] is the 64-bit pattern of an IEEE 754 `binary64` number. Prices, Greeks and
//! sizes travel through the executor in this form, and every operation here returns the bit
//! pattern of the correctly rounded result (round to nearest, ties to even).

use super::rounding::{
    decode, down, is_nearest, lemma_gap, lemma_magnitude_order, lemma_nearest_exact,
    lemma_nearest_unique,
    lemma_pow2_127, lemma_up_adds, magnitude, nearest, power_of_two, round_scaled, scaled, up,
    INF, SIGN, STEP,
};
use vstd::arithmetic::power2::{
    lemma_pow2_adds, lemma_pow2_pos, lemma_pow2_strictly_increases, lemma_pow2_unfold, pow2,
};
use vstd::prelude::*;

verus! {

/// Rank of the pattern that every operation returns for "not a number".
pub const NAN: u64 = 0x7ff8_0000_0000_0000;

/// Units in the number one.
pub open spec fn one() -> int {
    pow2(1074) as int
}

/// A binary floating-point number, by its bit pattern.
#[derive(Clone, Copy, Debug, PartialEq, Eq, Structural)]
pub struct Double {
    pub bits: u64,
}

impl Double {
    /// Whether the sign is set. Zero and "not a number" have a sign too.
    pub open spec fn negative(self) -> bool {
        self.bits >= SIGN
    }

    /// Position of the magnitude among all magnitudes.
    pub open spec fn rank(self) -> int {
        self.bits as int % SIGN as int
    }

    pub open spec fn nan(self) -> bool {
        self.rank() > INF
    }

    pub open spec fn infinite(self) -> bool {
        self.rank() == INF
    }

    pub open spec fn finite(self) -> bool {
        self.rank() < INF
    }

    /// The value in units, which orders all numbers. Infinity is ranked after every finite one.
    pub open spec fn units(self) -> int {
        if self.negative() {
            -magnitude(self.rank())
        } else {
            magnitude(self.rank())
        }
    }

    /// The number with the given sign and rank.
    pub open spec fn of(negative: bool, rank: int) -> Double {
        Double { bits: (if negative { rank + SIGN } else { rank }) as u64 }
    }

    /// The number nearest to a whole one.
    pub open spec fn whole(n: int) -> Double {
        Double::of(n < 0, nearest((if n < 0 { -n } else { n }) * one(), 1))
    }

    /// The number nearest to `n / 100`.
    pub open spec fn percent(n: int) -> Double {
        Double::whole(n).quotient(Double::whole(100))
    }

    pub open spec fn opposite(self) -> Double {
        Double::of(!self.negative(), self.rank())
    }

    pub open spec fn absolute(self) -> Double {
        Double::of(false, self.rank())
    }

    /// Sum, correctly rounded. A sum that is zero is negative only if both terms are.
    #[verifier::opaque]
    pub open spec fn sum(self, other: Double) -> Double {
        let exact = self.units() + other.units();
        if self.nan() || other.nan() {
            Double { bits: NAN }
        } else if self.infinite() {
            if other.infinite() && self.negative() != other.negative() {
                Double { bits: NAN }
            } else {
                self
            }
        } else if other.infinite() {
            other
        } else if exact == 0 {
            Double::of(self.negative() && other.negative(), 0)
        } else if exact < 0 {
            Double::of(true, nearest(-exact, 1))
        } else {
            Double::of(false, nearest(exact, 1))
        }
    }

    pub open spec fn difference(self, other: Double) -> Double {
        self.sum(other.opposite())
    }

    /// Product, correctly rounded.
    #[verifier::opaque]
    pub open spec fn product(self, other: Double) -> Double {
        let negative = self.negative() != other.negative();
        if self.nan() || other.nan() {
            Double { bits: NAN }
        } else if self.infinite() || other.infinite() {
            if self.rank() == 0 || other.rank() == 0 {
                Double { bits: NAN }
            } else {
                Double::of(negative, INF as int)
            }
        } else {
            Double::of(negative, nearest(magnitude(self.rank()) * magnitude(other.rank()), one()))
        }
    }

    /// Quotient, correctly rounded.
    #[verifier::opaque]
    pub open spec fn quotient(self, other: Double) -> Double {
        let negative = self.negative() != other.negative();
        if self.nan() || other.nan() {
            Double { bits: NAN }
        } else if self.infinite() {
            if other.infinite() {
                Double { bits: NAN }
            } else {
                Double::of(negative, INF as int)
            }
        } else if other.infinite() {
            Double::of(negative, 0)
        } else if other.rank() == 0 {
            if self.rank() == 0 {
                Double { bits: NAN }
            } else {
                Double::of(negative, INF as int)
            }
        } else {
            Double::of(negative, nearest(magnitude(self.rank()) * one(), magnitude(other.rank())))
        }
    }

    /// `self <= other`; false where either is not a number.
    pub open spec fn at_most(self, other: Double) -> bool {
        !self.nan() && !other.nan() && self.units() <= other.units()
    }

    /// `self < other`; false where either is not a number.
    pub open spec fn below(self, other: Double) -> bool {
        !self.nan() && !other.nan() && self.units() < other.units()
    }

    /// The whole number that the value rounds to, halves away from zero, cut to `0..=u64::MAX`.
    pub open spec fn rounded(self) -> int {
        let n = (2 * magnitude(self.rank()) + one()) / (2 * one());
        if self.nan() || self.negative() {
            0
        } else if self.infinite() || n > u64::MAX {
            u64::MAX as int
        } else {
            n
        }
    }

    /// The whole part of the value, cut to `0..=u32::MAX`.
    pub open spec fn truncated(self) -> int {
        let n = magnitude(self.rank()) / one();
        if self.nan() || self.negative() {
            0
        } else if self.infinite() || n > u32::MAX {
            u32::MAX as int
        } else {
            n
        }
    }

    pub fn from_bits(bits: u64) -> (r: Double)
        ensures
            r.bits == bits,
    {
        Double { bits }
    }

    /// Positive zero.
    pub fn zero() -> (r: Double)
        ensures
            r == Double::of(false, 0),
    {
        Double { bits: 0 }
    }

    pub fn is_negative(self) -> (r: bool)
        ensures
            r == self.negative(),
    {
        self.bits >= SIGN
    }

    pub(crate) fn rank_bits(self) -> (r: u64)
        ensures
            r == self.rank(),
            r < SIGN,
    {
        self.bits % SIGN
    }

    fn make(negative: bool, rank: u64) -> (r: Double)
        requires
            rank < SIGN,
        ensures
            r == Double::of(negative, rank as int),
            r.rank() == rank,
            r.negative() == negative,
    {
        if negative {
            Double { bits: rank + SIGN }
        } else {
            Double { bits: rank }
        }
    }

    pub fn is_nan(self) -> (r: bool)
        ensures
            r == self.nan(),
    {
        self.rank_bits() > INF
    }

    pub fn negated(self) -> (r: Double)
        ensures
            r == self.opposite(),
            r.rank() == self.rank(),
            r.negative() == !self.negative(),
    {
        Double::make(!self.is_negative(), self.rank_bits())
    }

    pub fn abs(self) -> (r: Double)
        ensures
            r == self.absolute(),
            r.rank() == self.rank(),
            !r.negative(),
    {
        Double::make(false, self.rank_bits())
    }

    /// The number nearest to a natural one.
    fn from_natural(negative: bool, n: u64) -> (r: Double)
        ensures
            r == Double::of(negative, nearest(n * one(), 1)),
            r.negative() == negative,
    {
        if n == 0 {
            proof {
                assert(magnitude(0) == 0);
                lemma_nearest_exact(0, 0, 1);
                lemma_nearest_unique(0, 0, 1);
                assert(0 * one() == 0);
            }
            return Double::make(negative, 0);
        }
        proof {
            lemma_up_adds(0, 1074);
            assert(down(1074) == 1);
            assert(n * up(1074) * 1 == n * one());
            let m: int = n as int;
            assert((m + 1) * up(1074) * 1 > m * one()) by (nonlinear_arith)
                requires
                    up(1074) == one(),
                    up(1074) > 0,
            ;
            assert(scaled(n as int, 1074, false, n * one(), 1));
        }
        let k: u64 = round_scaled(n as u128, 1074, false, Ghost(n * one()), Ghost(1));
        Double::make(negative, k)
    }

    pub fn from_u64(n: u64) -> (r: Double)
        ensures
            r == Double::whole(n as int),
            !r.negative(),
    {
        Double::from_natural(false, n)
    }

    pub fn from_i64(n: i64) -> (r: Double)
        ensures
            r == Double::whole(n as int),
    {
        if n < 0 {
            Double::from_natural(true, (-(n as i128)) as u64)
        } else {
            Double::from_natural(false, n as u64)
        }
    }

    /// The number nearest to `n / 100`, which is what the literal of that decimal denotes.
    pub fn hundredths(n: i64) -> (r: Double)
        ensures
            r == Double::percent(n as int),
    {
        Double::from_i64(n).over(Double::from_i64(100))
    }

    pub fn plus(self, other: Double) -> (r: Double)
        ensures
            r == self.sum(other),
    {
        proof {
            reveal(Double::sum);
        }
        if self.is_nan() || other.is_nan() {
            return Double { bits: NAN };
        }
        let ka: u64 = self.rank_bits();
        let kb: u64 = other.rank_bits();
        if ka == INF {
            if kb == INF && self.is_negative() != other.is_negative() {
                return Double { bits: NAN };
            }
            return self;
        }
        if kb == INF {
            return other;
        }
        proof {
            lemma_magnitude_order(ka as int, kb as int);
            lemma_magnitude_order(kb as int, ka as int);
        }
        let same: bool = self.is_negative() == other.is_negative();
        if ka >= kb {
            match add_ranks(ka, kb, same) {
                Some(k) => Double::make(self.is_negative(), k),
                None => Double::make(self.is_negative() && other.is_negative(), 0),
            }
        } else {
            match add_ranks(kb, ka, same) {
                Some(k) => Double::make(other.is_negative(), k),
                None => Double::make(self.is_negative() && other.is_negative(), 0),
            }
        }
    }

    pub fn minus(self, other: Double) -> (r: Double)
        ensures
            r == self.difference(other),
    {
        self.plus(other.negated())
    }

    pub fn times(self, other: Double) -> (r: Double)
        ensures
            r == self.product(other),
            self.negative() == other.negative() ==> !r.negative(),
    {
        proof {
            reveal(Double::product);
        }
        if self.is_nan() || other.is_nan() {
            return Double { bits: NAN };
        }
        let ka: u64 = self.rank_bits();
        let kb: u64 = other.rank_bits();
        let negative: bool = self.is_negative() != other.is_negative();
        if ka == INF || kb == INF {
            if ka == 0 || kb == 0 {
                return Double { bits: NAN };
            }
            return Double::make(negative, INF);
        }
        Double::make(negative, multiply_ranks(ka, kb))
    }

    pub fn over(self, other: Double) -> (r: Double)
        ensures
            r == self.quotient(other),
    {
        proof {
            reveal(Double::quotient);
        }
        if self.is_nan() || other.is_nan() {
            return Double { bits: NAN };
        }
        let ka: u64 = self.rank_bits();
        let kb: u64 = other.rank_bits();
        let negative: bool = self.is_negative() != other.is_negative();
        if ka == INF {
            if kb == INF {
                return Double { bits: NAN };
            }
            return Double::make(negative, INF);
        }
        if kb == INF {
            return Double::make(negative, 0);
        }
        if kb == 0 {
            if ka == 0 {
                return Double { bits: NAN };
            }
            return Double::make(negative, INF);
        }
        Double::make(negative, divide_ranks(ka, kb))
    }

    /// Position on the number line, which orders as the values do.
    fn place(self) -> (r: i64)
        requires
            !self.nan(),
        ensures
            r == (if self.negative() { -self.rank() } else { self.rank() }),
    {
        let k: u64 = self.rank_bits();
        if self.is_negative() {
            -(k as i64)
        } else {
            k as i64
        }
    }

    pub fn le(self, other: Double) -> (r: bool)
        ensures
            r == self.at_most(other),
    {
        if self.is_nan() || other.is_nan() {
            return false;
        }
        proof {
            lemma_magnitude_order(self.rank(), other.rank());
            lemma_magnitude_order(other.rank(), self.rank());
            lemma_magnitude_order(self.rank(), 0);
            lemma_magnitude_order(other.rank(), 0);
        }
        self.place() <= other.place()
    }

    pub fn lt(self, other: Double) -> (r: bool)
        ensures
            r == self.below(other),
    {
        if self.is_nan() || other.is_nan() {
            return false;
        }
        proof {
            lemma_magnitude_order(self.rank(), other.rank());
            lemma_magnitude_order(other.rank(), self.rank());
            lemma_magnitude_order(self.rank(), 0);
            lemma_magnitude_order(other.rank(), 0);
        }
        self.place() < other.place()
    }
}

/// Adds to the larger rank `ka`, or takes from it where the signs differ.
fn add_ranks(ka: u64, kb: u64, same: bool) -> (r: Option<u64>)
    requires
        kb <= ka < INF,
    ensures
        ({
            let exact = if same {
                magnitude(ka as int) + magnitude(kb as int)
            } else {
                magnitude(ka as int) - magnitude(kb as int)
            };
            match r {
                Some(k) => exact > 0 && k <= INF && k == nearest(exact, 1),
                None => exact == 0,
            }
        }),
{
    let (ma, ea) = decode(ka);
    let (mb, eb) = decode(kb);
    let ghost va: int = magnitude(ka as int);
    let ghost vb: int = magnitude(kb as int);
    let ghost exact: int = if same { va + vb } else { va - vb };
    proof {
        lemma_magnitude_order(ka as int, kb as int);
        lemma_magnitude_order(kb as int, ka as int);
        assert(eb <= ea) by (nonlinear_arith)
            requires
                ka == ea * STEP + ma,
                kb == eb * STEP + mb,
                kb <= ka,
                ma < 2 * STEP,
                eb > 0 ==> mb >= STEP,
                ea >= 0,
                mb >= 0,
                STEP == 0x0010_0000_0000_0000,
        ;
    }
    let d: u64 = ea - eb;
    if d > 64 {
        proof {
            lemma_absorbed(ka as int, ma as int, ea as int, mb as int, eb as int, exact);
            lemma_nearest_unique(ka as int, exact, 1);
        }
        return Some(ka);
    }
    let f: u128 = power_of_two(d);
    proof {
        lemma_pow2_127();
        if d < 64 {
            lemma_pow2_strictly_increases(d as nat, 64);
        }
        lemma_pow2_pos(d as nat);
        lemma_pow2_pos(eb as nat);
        lemma_pow2_adds(d as nat, eb as nat);
        assert(ma * f <= 0x3f_ffff_ffff_ffff * 0x1_0000_0000_0000_0000) by (nonlinear_arith)
            requires
                ma < 2 * STEP,
                0 < f <= 0x1_0000_0000_0000_0000,
                STEP == 0x0010_0000_0000_0000,
        ;
    }
    let wide: u128 = ma as u128 * f;
    let ghost fe: int = pow2(eb as nat) as int;
    proof {
        let fd: int = pow2(ea as nat) as int;
        assert(wide * fe == va) by (nonlinear_arith)
            requires
                wide == ma * f,
                fd == f * fe,
                va == ma * fd,
        ;
        assert(wide >= mb) by (nonlinear_arith)
            requires
                wide * fe >= mb * fe,
                fe > 0,
        ;
    }
    let m: u128 = if same {
        wide + mb as u128
    } else {
        wide - mb as u128
    };
    proof {
        assert(m * fe == exact) by (nonlinear_arith)
            requires
                same ==> m == wide + mb && exact == va + vb,
                !same ==> m == wide - mb && exact == va - vb,
                wide * fe == va,
                vb == mb * fe,
        ;
        assert((m > 0) == (exact > 0)) by (nonlinear_arith)
            requires
                m * fe == exact,
                fe > 0,
        ;
    }
    if m == 0 {
        return None;
    }
    proof {
        lemma_scaled_exact(m as int, eb as int, exact);
    }
    Some(round_scaled(m, eb as i64, false, Ghost(exact), Ghost(1)))
}

/// A whole multiple of a power of two is its own quotient by one.
proof fn lemma_scaled_exact(m: int, e: int, exact: int)
    requires
        e >= 0,
        exact == m * pow2(e as nat),
    ensures
        scaled(m, e, false, exact, 1),
{
    lemma_up_adds(0, e);
    assert(down(e) == 1) by {
        if e == 0 {
            vstd::arithmetic::power2::lemma2_to64();
        }
    }
    let p: int = up(e);
    assert((m + 1) * p > m * p) by (nonlinear_arith)
        requires
            p > 0,
    ;
}

/// A term far below the last digit of the other does not change the rounded sum.
proof fn lemma_absorbed(ka: int, ma: int, ea: int, mb: int, eb: int, exact: int)
    requires
        0 <= ka < INF,
        magnitude(ka) == ma * pow2(ea as nat),
        ka == ea * STEP + ma,
        STEP <= ma < 2 * STEP,
        0 <= mb < 2 * STEP,
        0 <= eb,
        ea - eb > 64,
        exact == magnitude(ka) + mb * pow2(eb as nat) || exact == magnitude(ka) - mb * pow2(
            eb as nat,
        ),
    ensures
        is_nearest(ka, exact, 1),
        exact > 0,
{
    let w: int = mb * pow2(eb as nat);
    let fe: int = pow2(eb as nat) as int;
    let small: int = pow2((ea - 12) as nat) as int;
    lemma_pow2_127();
    lemma_pow2_pos(eb as nat);
    lemma_pow2_adds(53, eb as nat);
    if 53 + eb < ea - 12 {
        lemma_pow2_strictly_increases((53 + eb) as nat, (ea - 12) as nat);
    }
    assert(0 <= w < small) by (nonlinear_arith)
        requires
            w == mb * fe,
            0 <= mb < 2 * STEP,
            fe > 0,
            2 * STEP * fe <= small,
    ;
    lemma_pow2_adds((ea - 12) as nat, 11);
    lemma_pow2_adds((ea - 12) as nat, 12);
    vstd::arithmetic::power2::lemma2_to64();
    let below: int = pow2((ea - 1) as nat) as int;
    let above: int = pow2(ea as nat) as int;
    lemma_gap(ka);
    lemma_gap(ka - 1);
    assert(ka / STEP as int == ea + 1);
    if ma > STEP {
        assert((ka - 1) / STEP as int == ea + 1);
    } else {
        assert((ka - 1) / STEP as int == ea);
    }
    assert(ma * above >= above) by (nonlinear_arith)
        requires
            ma >= 1,
            above >= 0,
    ;
}

/// Rank of the product of two finite magnitudes.
fn multiply_ranks(ka: u64, kb: u64) -> (k: u64)
    requires
        ka < INF,
        kb < INF,
    ensures
        k <= INF,
        k == nearest(magnitude(ka as int) * magnitude(kb as int), one()),
{
    let (ma, ea) = decode(ka);
    let (mb, eb) = decode(kb);
    let ghost num: int = magnitude(ka as int) * magnitude(kb as int);
    proof {
        lemma_pow2_pos(1074);
        lemma_pow2_adds(ea as nat, eb as nat);
        lemma_pow2_127();
        assert(ma * mb <= 0x1f_ffff_ffff_ffff * 0x1f_ffff_ffff_ffff) by (nonlinear_arith)
            requires
                ma <= 0x1f_ffff_ffff_ffff,
                mb <= 0x1f_ffff_ffff_ffff,
        ;
    }
    let m: u128 = ma as u128 * mb as u128;
    let ghost fa: int = pow2(ea as nat) as int;
    let ghost fb: int = pow2(eb as nat) as int;
    proof {
        assert(num == m * (fa * fb)) by (nonlinear_arith)
            requires
                num == (ma * fa) * (mb * fb),
                m == ma * mb,
        ;
    }
    if m == 0 {
        proof {
            assert(num == 0) by (nonlinear_arith)
                requires
                    num == m * (fa * fb),
                    m == 0,
            ;
            assert(magnitude(0) == 0);
            lemma_nearest_exact(0, 0, one());
            lemma_nearest_unique(0, 0, one());
        }
        return 0;
    }
    let e: i64 = ea as i64 + eb as i64 - 1074;
    proof {
        let p: int = up(e as int);
        let n: int = down(e as int);
        lemma_up_adds(1074, e as int);
        lemma_up_adds(0, e as int);
        let both: int = pow2((ea + eb) as nat) as int;
        assert(up(e + 1074) == both && down(e + 1074) == 1) by {
            if ea + eb == 0 {
                vstd::arithmetic::power2::lemma2_to64();
            }
        }
        assert(m * p * one() == num * n) by (nonlinear_arith)
            requires
                one() * p * 1 == both * n,
                num == m * both,
        ;
        assert((m + 1) * p * one() > m * p * one()) by (nonlinear_arith)
            requires
                p > 0,
                one() > 0,
        ;
    }
    round_scaled(m, e, false, Ghost(num), Ghost(one()))
}

/// Rank of the quotient of two finite magnitudes.
fn divide_ranks(ka: u64, kb: u64) -> (k: u64)
    requires
        ka < INF,
        0 < kb < INF,
    ensures
        k <= INF,
        k == nearest(magnitude(ka as int) * one(), magnitude(kb as int)),
{
    let (ma, ea) = decode(ka);
    let (mb, eb) = decode(kb);
    let ghost num: int = magnitude(ka as int) * one();
    let ghost den: int = magnitude(kb as int);
    proof {
        lemma_magnitude_order(kb as int, 0);
        lemma_magnitude_order(ka as int, 0);
        lemma_pow2_pos(ea as nat);
        lemma_pow2_pos(eb as nat);
    }
    if ka == 0 {
        proof {
            assert(num == 0) by (nonlinear_arith)
                requires
                    num == 0 * one(),
            ;
            lemma_nearest_exact(0, 0, den);
            lemma_nearest_unique(0, 0, den);
        }
        return 0;
    }
    proof {
        let fa: int = pow2(ea as nat) as int;
        let fb: int = pow2(eb as nat) as int;
        assert(ma > 0) by (nonlinear_arith)
            requires
                ma * fa > 0,
                fa > 0,
        ;
        assert(mb > 0) by (nonlinear_arith)
            requires
                mb * fb > 0,
                fb > 0,
        ;
        vstd::arithmetic::power2::lemma2_to64();
    }
    // Bring the dividend to full length, so that the quotient has digits to spare.
    let mut a: u64 = ma;
    let mut t: u64 = 0;
    while a < STEP
        invariant
            0 < a < 2 * STEP,
            t <= 53,
            a == ma * pow2(t as nat),
            a >= pow2(t as nat),
            ma > 0,
        decreases 2 * STEP - a,
    {
        proof {
            lemma_pow2_unfold((t + 1) as nat);
            lemma_pow2_127();
            if t >= 52 {
                if t > 52 {
                    lemma_pow2_strictly_increases(52, t as nat);
                }
                assert(false);
            }
            let f: int = pow2(t as nat) as int;
            assert(ma * (2 * f) == 2 * (ma * f)) by (nonlinear_arith);
        }
        a = a * 2;
        t = t + 1;
    }
    let f: u128 = power_of_two(74);
    proof {
        lemma_pow2_127();
        lemma_pow2_adds(53, 74);
        lemma_pow2_adds(52, 74);
        assert(STEP * f <= a * f < 2 * STEP * f) by (nonlinear_arith)
            requires
                STEP <= a < 2 * STEP,
                f > 0,
        ;
    }
    let wide: u128 = a as u128 * f;
    let m: u128 = wide / mb as u128;
    let rem: u128 = wide % mb as u128;
    let e: i64 = ea as i64 - eb as i64 - t as i64 + 1000;
    proof {
        let q: int = m as int;
        let b: int = mb as int;
        assert(wide == b * q + rem && 0 <= rem < b) by {
            vstd::arithmetic::div_mod::lemma_fundamental_div_mod(wide as int, b);
        }
        assert(q >= 0x80_0000_0000_0000) by (nonlinear_arith)
            requires
                wide == b * q + rem,
                rem < b,
                0 < b < 2 * STEP,
                wide >= STEP * f,
                f == 0x400 * 0x1_0000_0000_0000_0000,
                STEP == 0x0010_0000_0000_0000,
        ;
        lemma_pow2_adds(10, 64);
        vstd::arithmetic::power2::lemma2_to64();
        assert(q <= wide) by (nonlinear_arith)
            requires
                wide == b * q + rem,
                0 <= rem,
                b >= 1,
                q >= 0,
        ;
        lemma_quotient_scaled(
            ma as int,
            ea as int,
            b,
            eb as int,
            t as int,
            q,
            rem as int,
            num,
            den,
        );
    }
    round_scaled(m, e, rem != 0, Ghost(num), Ghost(den))
}

/// Long division of significands is division of the magnitudes, up to a power of two.
proof fn lemma_quotient_scaled(
    ma: int,
    ea: int,
    mb: int,
    eb: int,
    t: int,
    q: int,
    rem: int,
    num: int,
    den: int,
)
    requires
        ma > 0,
        mb > 0,
        0 <= ea,
        0 <= eb,
        0 <= t,
        num == ma * pow2(ea as nat) * one(),
        den == mb * pow2(eb as nat),
        ma * pow2(t as nat) * pow2(74) == mb * q + rem,
        0 <= rem < mb,
    ensures
        scaled(q, ea - eb - t + 1000, rem != 0, num, den),
{
    let e: int = ea - eb - t + 1000;
    let p: int = up(e);
    let n: int = down(e);
    let a: int = t + 74 + eb;
    let fb: int = pow2(eb as nat) as int;
    let ft: int = pow2(t as nat) as int * pow2(74) as int;
    let fa: int = pow2(ea as nat) as int * one();
    lemma_up_adds(a, e);
    lemma_up_adds(0, e);
    lemma_pow2_pos(eb as nat);
    lemma_pow2_adds(t as nat, 74);
    lemma_pow2_adds((t + 74) as nat, eb as nat);
    lemma_pow2_adds(ea as nat, 1074);
    assert(ft * fb == pow2(a as nat)) by (nonlinear_arith)
        requires
            ft == pow2((t + 74) as nat),
            pow2((t + 74) as nat) * pow2(eb as nat) == pow2(a as nat),
            fb == pow2(eb as nat),
    ;
    assert(a + e == ea + 1074);
    assert(down(a + e) == 1);
    assert(ft * fb * p == fa * n);
    assert(ma * ft == mb * q + rem) by (nonlinear_arith)
        requires
            ma * pow2(t as nat) * pow2(74) == mb * q + rem,
            ft == pow2(t as nat) * pow2(74),
    ;
    assert(num == ma * fa) by (nonlinear_arith)
        requires
            num == ma * pow2(ea as nat) * one(),
            fa == pow2(ea as nat) * one(),
    ;
    assert(num * n == (mb * q + rem) * (fb * p)) by (nonlinear_arith)
        requires
            num == ma * fa,
            ft * fb * p == fa * n,
            ma * ft == mb * q + rem,
    ;
    let c: int = fb * p;
    assert(c > 0) by (nonlinear_arith)
        requires
            c == fb * p,
            fb > 0,
            p > 0,
    ;
    assert(q * p * den == (mb * q) * c && (q + 1) * p * den == (mb * q + mb) * c)
        by (nonlinear_arith)
        requires
            den == mb * fb,
            c == fb * p,
    ;
    assert((mb * q) * c <= (mb * q + rem) * c < (mb * q + mb) * c && ((mb * q) * c == (mb * q
        + rem) * c) == (rem == 0)) by (nonlinear_arith)
        requires
            0 <= rem < mb,
            c > 0,
    ;
}

/// A number, or zero if there is none.
pub open spec fn or_zero(x: Option<Double>) -> Double {
    match x {
        Some(v) => v,
        None => Double::of(false, 0),
    }
}

pub fn value_or_zero(x: Option<Double>) -> (r: Double)
    ensures
        r == or_zero(x),
{
    match x {
        Some(v) => v,
        None => Double::zero(),
    }
}

/// The number nearest to zero is positive zero.
pub proof fn lemma_whole_zero()
    ensures
        Double::whole(0) == Double::of(false, 0),
{
    assert(magnitude(0) == 0);
    lemma_nearest_exact(0, 0, 1);
    lemma_nearest_unique(0, 0, 1);
    assert(0 * one() == 0);
}

/// The whole part of a number is cut to what fits.
pub proof fn lemma_truncated_range(x: Double)
    ensures
        0 <= x.truncated() <= u32::MAX,
{
    if x.finite() {
        lemma_pow2_pos(1074);
        lemma_magnitude_order(x.rank(), 0);
        let a: int = magnitude(x.rank());
        assert(a / one() >= 0) by (nonlinear_arith)
            requires
                a >= 0,
                one() > 0,
        ;
    }
}

/// A number without a sign is not below zero.
pub proof fn lemma_not_below_zero(x: Double)
    requires
        !x.negative(),
    ensures
        !x.below(Double::of(false, 0)),
{
    if !x.nan() {
        lemma_magnitude_order(x.rank(), 0);
    }
}

} // verus!
