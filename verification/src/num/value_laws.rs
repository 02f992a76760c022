//! Arithmetic on all numbers: what is exact is rounded once, and what has no value is no number.

use super::double::{one, Double};
use super::laws::distance;
use super::rounding::{
    is_nearest, law_every_quotient_rounds, lemma_magnitude_order, lemma_nearest_exact, magnitude,
    nearest, INF,
};
use vstd::arithmetic::power2::lemma_pow2_pos;
use vstd::prelude::*;

verus! {

proof fn lemma_of(negative: bool, rank: int)
    requires
        0 <= rank <= INF,
    ensures
        Double::of(negative, rank).rank() == rank,
        Double::of(negative, rank).negative() == negative,
{
}

/// The sum of two numbers is the one nearest to the exact sum, with its sign; a sum of zero is
/// negative only if both terms are.
pub proof fn law_sums_are_nearest(x: Double, y: Double)
    requires
        x.finite(),
        y.finite(),
    ensures
        ({
            let s = x.sum(y);
            let exact = x.units() + y.units();
            &&& is_nearest(s.rank(), distance(exact), 1)
            &&& exact > 0 ==> !s.negative()
            &&& exact < 0 ==> s.negative()
            &&& exact == 0 ==> s.rank() == 0 && (s.negative() <==> x.negative() && y.negative())
            &&& s == y.sum(x)
            &&& x.difference(y) == x.sum(y.opposite())
        }),
{
    reveal(Double::sum);
    let exact: int = x.units() + y.units();
    law_every_quotient_rounds(distance(exact), 1);
    lemma_of(exact < 0, nearest(distance(exact), 1));
    if exact == 0 {
        lemma_of(x.negative() && y.negative(), 0);
        assert(magnitude(0) == 0);
        lemma_nearest_exact(0, 0, 1);
    }
}

/// The product of two numbers is the one nearest to the exact product; it is negative if and only
/// if one of the factors is.
pub proof fn law_products_are_nearest(x: Double, y: Double)
    requires
        x.finite(),
        y.finite(),
    ensures
        is_nearest(
            x.product(y).rank(),
            magnitude(x.rank()) * magnitude(y.rank()),
            one(),
        ),
        x.product(y).negative() <==> x.negative() != y.negative(),
        x.product(y) == y.product(x),
{
    reveal(Double::product);
    lemma_pow2_pos(1074);
    let a: int = magnitude(x.rank());
    let b: int = magnitude(y.rank());
    assert(magnitude(0) == 0);
    lemma_magnitude_order(0, x.rank());
    lemma_magnitude_order(0, y.rank());
    assert(a * b >= 0 && a * b == b * a) by (nonlinear_arith)
        requires
            a >= 0,
            b >= 0,
    ;
    law_every_quotient_rounds(a * b, one());
    lemma_of(x.negative() != y.negative(), nearest(a * b, one()));
}

/// The quotient of two numbers is the one nearest to the exact quotient; it is negative if and only
/// if one of the two is.
pub proof fn law_quotients_are_nearest(x: Double, y: Double)
    requires
        x.finite(),
        y.finite(),
        y.rank() != 0,
    ensures
        is_nearest(x.quotient(y).rank(), magnitude(x.rank()) * one(), magnitude(y.rank())),
        x.quotient(y).negative() <==> x.negative() != y.negative(),
{
    reveal(Double::quotient);
    lemma_pow2_pos(1074);
    let a: int = magnitude(x.rank());
    assert(magnitude(0) == 0);
    lemma_magnitude_order(0, x.rank());
    lemma_magnitude_order(0, y.rank());
    assert(a * one() >= 0) by (nonlinear_arith)
        requires
            a >= 0,
            one() > 0,
    ;
    law_every_quotient_rounds(a * one(), magnitude(y.rank()));
    lemma_of(x.negative() != y.negative(), nearest(a * one(), magnitude(y.rank())));
}

/// What is made of something that is no number is no number.
pub proof fn law_what_is_no_number_stays_none(x: Double, y: Double)
    requires
        x.nan() || y.nan(),
    ensures
        x.sum(y).nan(),
        x.difference(y).nan(),
        x.product(y).nan(),
        x.quotient(y).nan(),
        !x.at_most(y),
        !x.below(y),
{
    reveal(Double::sum);
    reveal(Double::product);
    reveal(Double::quotient);
}

/// An infinite number absorbs the finite ones that are added to it; two that are opposite have no
/// sum; and it has a product with everything but zero.
pub proof fn law_infinite_numbers(x: Double, y: Double)
    requires
        x.infinite(),
        !y.nan(),
    ensures
        y.finite() || y.negative() == x.negative() ==> x.sum(y) == x && y.sum(x) == x,
        y.infinite() && y.negative() != x.negative() ==> x.sum(y).nan() && y.sum(x).nan(),
        y.rank() == 0 ==> x.product(y).nan() && y.product(x).nan(),
        y.rank() != 0 ==> x.product(y).infinite() && y.product(x).infinite() && (x.product(
            y,
        ).negative() <==> x.negative() != y.negative()) && (y.product(x).negative()
            <==> x.negative() != y.negative()),
        y.finite() ==> x.quotient(y).infinite() && (x.quotient(y).negative() <==> x.negative()
            != y.negative()) && y.quotient(x).rank() == 0 && (y.quotient(x).negative()
            <==> x.negative() != y.negative()),
        y.infinite() ==> x.quotient(y).nan(),
{
    reveal(Double::sum);
    reveal(Double::product);
    reveal(Double::quotient);
    lemma_of(x.negative() != y.negative(), INF as int);
    lemma_of(x.negative() != y.negative(), 0);
    assert(y.infinite() && y.negative() == x.negative() ==> y.bits == x.bits);
}

/// Nothing is divided by zero but to infinity, and zero not even that.
pub proof fn law_division_by_zero(x: Double, y: Double)
    requires
        x.finite(),
        y.rank() == 0,
    ensures
        x.rank() == 0 ==> x.quotient(y).nan(),
        x.rank() != 0 ==> x.quotient(y).infinite() && (x.quotient(y).negative() <==> x.negative()
            != y.negative()),
{
    reveal(Double::quotient);
    lemma_of(x.negative() != y.negative(), INF as int);
}

/// Numbers are ordered by their values; the opposite of a number has the opposite value, and its
/// absolute value has its magnitude.
pub proof fn law_numbers_are_ordered_by_value(x: Double, y: Double)
    requires
        !x.nan(),
        !y.nan(),
    ensures
        x.at_most(y) <==> x.units() <= y.units(),
        x.below(y) <==> x.units() < y.units(),
        x.at_most(y) || y.below(x),
        x.opposite().units() == -x.units(),
        x.opposite().opposite() == x,
        x.absolute().units() == distance(x.units()),
        !x.absolute().negative(),
{
    lemma_of(!x.negative(), x.rank());
    lemma_of(x.negative(), x.rank());
    lemma_of(false, x.rank());
    assert(magnitude(0) == 0);
    lemma_magnitude_order(0, x.rank());
}

} // verus!
