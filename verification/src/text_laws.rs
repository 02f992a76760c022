//! What is written can be read back.

use crate::num::double::{one, Double};
use crate::num::format::{fixed, half_even};
use crate::num::rounding::{lemma_magnitude_order, magnitude};
use crate::text::{
    after_bytes, all_digits, decimal, digit, digits_value, head, is_digit, is_space, joined, occurs,
    occurs_at, padded, parsed_integer, pieces, signed_decimal, space_filled, without, zero_filled,
};
use vstd::arithmetic::div_mod::{lemma_fundamental_div_mod, lemma_mod_bound};
use vstd::arithmetic::power::{lemma_pow0, lemma_pow1, lemma_pow_adds, lemma_pow_positive, pow};
use vstd::arithmetic::power2::lemma_pow2_pos;
use vstd::prelude::*;
use vstd::utf8::{encode_utf8, encode_utf8_decode_utf8};

verus! {

/// A number in decimal is made of digits, without a zero in front unless it is zero, and they
/// spell the number.
pub proof fn law_decimals_read_back(n: nat)
    ensures
        decimal(n).len() > 0,
        all_digits(decimal(n)),
        digits_value(decimal(n)) == n,
        n > 0 ==> decimal(n)[0] != '0',
    decreases n,
{
    if n < 10 {
        let d: Seq<char> = decimal(n);
        assert(d.drop_last() =~= Seq::empty());
        assert(digits_value(d.drop_last()) == 0);
        assert(d.last() == digit(n as int));
    } else {
        law_decimals_read_back(n / 10);
        let d: Seq<char> = decimal(n);
        assert(d.drop_last() =~= decimal(n / 10));
        assert(d[0] == decimal(n / 10)[0]);
        assert forall|i: int| 0 <= i < d.len() implies is_digit(#[trigger] d[i]) by {
            if i < d.len() - 1 {
                assert(d[i] == decimal(n / 10)[i]);
            }
        }
    }
}

/// Different numbers are written differently.
pub proof fn law_decimals_are_distinct(a: nat, b: nat)
    ensures
        decimal(a) == decimal(b) ==> a == b,
{
    law_decimals_read_back(a);
    law_decimals_read_back(b);
}

pub proof fn lemma_digits_concat(a: Seq<char>, b: Seq<char>)
    ensures
        digits_value(a + b) == digits_value(a) * pow(10, b.len()) + digits_value(b),
        all_digits(a + b) <==> all_digits(a) && all_digits(b),
    decreases b.len(),
{
    if b.len() == 0 {
        lemma_pow0(10);
        assert(a + b =~= a);
    } else {
        let front: Seq<char> = b.drop_last();
        lemma_digits_concat(a, front);
        assert((a + b).drop_last() =~= a + front);
        assert((a + b).last() == b.last());
        lemma_pow_adds(10, front.len(), 1);
        lemma_pow1(10);
        let x: int = digits_value(a);
        let p: int = pow(10, front.len());
        assert((x * p + digits_value(front)) * 10 == x * (p * 10) + digits_value(front) * 10)
            by (nonlinear_arith);
    }
    if all_digits(a + b) {
        assert forall|i: int| 0 <= i < a.len() implies is_digit(#[trigger] a[i]) by {
            assert((a + b)[i] == a[i]);
        }
        assert forall|i: int| 0 <= i < b.len() implies is_digit(#[trigger] b[i]) by {
            assert((a + b)[a.len() + i] == b[i]);
        }
    }
    if all_digits(a) && all_digits(b) {
        assert forall|i: int| 0 <= i < (a + b).len() implies is_digit(#[trigger] (a + b)[i]) by {
            if i < a.len() {
                assert((a + b)[i] == a[i]);
            } else {
                assert((a + b)[i] == b[i - a.len()]);
            }
        }
    }
}

proof fn lemma_zeros(n: nat)
    ensures
        digits_value(Seq::new(n, |i: int| '0')) == 0,
        all_digits(Seq::new(n, |i: int| '0')),
    decreases n,
{
    if n > 0 {
        let z: Seq<char> = Seq::new(n, |i: int| '0');
        assert(z.drop_last() =~= Seq::new((n - 1) as nat, |i: int| '0'));
        lemma_zeros((n - 1) as nat);
    }
}

/// A number that is filled up with zeros is made of digits, at least as many as asked for, and
/// they spell the number.
pub proof fn law_filled_numbers_read_back(n: nat, width: nat)
    ensures
        zero_filled(n, width).len() >= width,
        decimal(n).len() <= width ==> zero_filled(n, width).len() == width,
        all_digits(zero_filled(n, width)),
        digits_value(zero_filled(n, width)) == n,
{
    let d: Seq<char> = decimal(n);
    let gap: nat = if d.len() < width {
        (width - d.len()) as nat
    } else {
        0
    };
    law_decimals_read_back(n);
    lemma_zeros(gap);
    lemma_digits_concat(Seq::new(gap, |i: int| '0'), d);
    assert(0 * pow(10, d.len()) == 0);
}

proof fn lemma_padded(n: nat, width: nat)
    requires
        n < pow(10, width),
    ensures
        padded(n, width).len() == width,
        all_digits(padded(n, width)),
        digits_value(padded(n, width)) == n,
    decreases width,
{
    if width == 0 {
        lemma_pow0(10);
    } else {
        let w: nat = (width - 1) as nat;
        lemma_pow_adds(10, w, 1);
        lemma_pow1(10);
        assert(n / 10 < pow(10, w));
        lemma_padded(n / 10, w);
        let d: Seq<char> = padded(n, width);
        assert(d.drop_last() =~= padded(n / 10, w));
        assert forall|i: int| 0 <= i < d.len() implies is_digit(#[trigger] d[i]) by {
            if i < d.len() - 1 {
                assert(d[i] == padded(n / 10, w)[i]);
            }
        }
    }
}

/// The number that is written for a 64-bit number is read as that number.
pub proof fn law_signed_numbers_read_back(n: i64)
    ensures
        parsed_integer(signed_decimal(n as int)) == Some(n),
{
    let s: Seq<char> = signed_decimal(n as int);
    if n < 0 {
        law_decimals_read_back((-n) as nat);
        assert(s.skip(1) =~= decimal((-n) as nat));
        assert(s[0] == '-');
    } else {
        law_decimals_read_back(n as nat);
        assert(is_digit(s[0]));
    }
}

/// The digits are the ten characters from `0` to `9`, and one more digit at the end makes ten times
/// the number and the digit.
pub proof fn law_digits_have_their_values(s: Seq<char>, c: char)
    ensures
        is_digit(c) <==> '0' <= c <= '9',
        digits_value(Seq::empty()) == 0,
        digits_value(s.push(c)) == 10 * digits_value(s) + (c as int - '0' as int),
        all_digits(s.push(c)) <==> all_digits(s) && is_digit(c),
{
    assert(s.push(c).drop_last() =~= s);
    if all_digits(s.push(c)) {
        assert(is_digit(s.push(c)[s.len() as int]));
        assert forall|i: int| 0 <= i < s.len() implies is_digit(#[trigger] s[i]) by {
            assert(s.push(c)[i] == s[i]);
        }
    }
}

/// A text is read as a number if and only if it is digits, after at most one sign, and the number
/// that they spell is a 64-bit number; a minus turns it round.
pub proof fn law_only_numbers_are_read(s: Seq<char>)
    ensures
        parsed_integer(Seq::empty()) is None,
        parsed_integer(seq!['+'] + s) is Some ==> all_digits(s),
        parsed_integer(seq!['-'] + s) is Some ==> all_digits(s),
        s.len() > 0 && all_digits(s) ==> {
            let n = digits_value(s);
            &&& n <= i64::MAX ==> parsed_integer(s) == Some(n as i64)
            &&& n > i64::MAX ==> parsed_integer(s) is None
            &&& parsed_integer(seq!['+'] + s) == parsed_integer(s)
            &&& n <= i64::MAX + 1 ==> parsed_integer(seq!['-'] + s) == Some((-n) as i64)
            &&& n > i64::MAX + 1 ==> parsed_integer(seq!['-'] + s) is None
        },
        s.len() > 0 && s[0] != '+' && s[0] != '-' && !all_digits(s) ==> parsed_integer(s) is None,
        parsed_integer(seq!['+']) is None,
        parsed_integer(seq!['-']) is None,
{
    let plus: Seq<char> = seq!['+'] + s;
    let minus: Seq<char> = seq!['-'] + s;
    assert(plus.skip(1) =~= s);
    assert(minus.skip(1) =~= s);
    assert(seq!['+'].skip(1) =~= Seq::empty());
    assert(seq!['-'].skip(1) =~= Seq::empty());
    if s.len() > 0 && all_digits(s) {
        lemma_digits_value_positive(s);
        assert(is_digit(s[0]));
    }
}

proof fn lemma_digits_value_positive(s: Seq<char>)
    requires
        all_digits(s),
    ensures
        digits_value(s) >= 0,
    decreases s.len(),
{
    if s.len() > 0 {
        assert(is_digit(s[s.len() - 1]));
        assert forall|i: int| 0 <= i < s.drop_last().len() implies is_digit(
            #[trigger] s.drop_last()[i],
        ) by {
            assert(is_digit(s[i]));
        }
        lemma_digits_value_positive(s.drop_last());
    }
}

/// A number with a fixed count of places has a minus sign if and only if it is negative, a point
/// before its last places if there are any, and the digits spell the value in units of the last
/// place, rounded to the nearest; a half goes to the even one.
pub proof fn law_fixed_numbers_read_back(x: Double, places: nat)
    requires
        x.finite(),
    ensures
        ({
            let t = fixed(x, places);
            let body = if x.negative() {
                t.skip(1)
            } else {
                t
            };
            let front = body.len() - places - 1;
            let digits = if places == 0 {
                body
            } else {
                body.take(front) + body.skip(front + 1)
            };
            let n = digits_value(digits);
            let scaled = magnitude(x.rank()) * pow(10, places);
            &&& t.len() > 0
            &&& x.negative() <==> t[0] == '-'
            &&& places > 0 ==> front > 0 && body[front] == '.'
            &&& digits.len() > places
            &&& all_digits(digits)
            &&& 2 * (n * one() - scaled) <= one()
            &&& 2 * (scaled - n * one()) <= one()
            &&& 2 * (n * one() - scaled) == one() || 2 * (scaled - n * one()) == one() ==> n % 2 == 0
        }),
{
    let scale: int = pow(10, places);
    lemma_pow_positive(10, places);
    lemma_pow2_pos(1074);
    lemma_magnitude_order(x.rank(), 0);
    let m: int = magnitude(x.rank());
    let scaled: int = m * scale;
    assert(scaled >= 0) by (nonlinear_arith)
        requires
            m >= 0,
            scale > 0,
            scaled == m * scale,
    ;
    let n: int = half_even(scaled, one());
    let q: int = scaled / one();
    let r: int = scaled % one();
    lemma_fundamental_div_mod(scaled, one());
    lemma_mod_bound(scaled, one());
    assert(q >= 0) by (nonlinear_arith)
        requires
            scaled >= 0,
            one() > 0,
            q == scaled / one(),
    ;
    assert(one() * q == q * one() && (q + 1) * one() == q * one() + one()) by (nonlinear_arith);
    assert(n == q || n == q + 1);
    let a: nat = (n / scale) as nat;
    let b: nat = (n % scale) as nat;
    lemma_fundamental_div_mod(n, scale);
    lemma_mod_bound(n, scale);
    assert(n / scale >= 0) by (nonlinear_arith)
        requires
            n >= 0,
            scale > 0,
    ;
    law_decimals_read_back(a);
    lemma_padded(b, places);
    let t: Seq<char> = fixed(x, places);
    let body: Seq<char> = if x.negative() {
        t.skip(1)
    } else {
        t
    };
    if places == 0 {
        lemma_pow0(10);
        assert(body =~= decimal(n as nat));
        assert(!x.negative() ==> is_digit(t[0]));
    } else {
        let front: int = body.len() - places - 1;
        assert(body =~= decimal(a).push('.') + padded(b, places));
        assert(body.take(front) =~= decimal(a));
        assert(body.skip(front + 1) =~= padded(b, places));
        lemma_digits_concat(decimal(a), padded(b, places));
        assert(a * scale == scale * a) by (nonlinear_arith);
        assert(!x.negative() ==> t[0] == decimal(a)[0] && is_digit(decimal(a)[0]));
    }
}

/// What is left of a text without a character has no such character, and the others in their
/// order: a text that comes before or after adds its own part.
pub proof fn law_removing_a_character(s: Seq<char>, x: char, c: char)
    ensures
        without(Seq::empty(), c) == Seq::<char>::empty(),
        without(s.push(x), c) == if x == c {
            without(s, c)
        } else {
            without(s, c).push(x)
        },
{
    reveal(Seq::filter);
    assert(s.push(x).drop_last() =~= s);
    assert(without(Seq::empty(), c) =~= Seq::<char>::empty());
}

/// The head of a text is its first characters, as many as asked for or all there are.
pub proof fn law_heads_are_the_first_characters(s: Seq<char>, n: int)
    requires
        n >= 0,
    ensures
        head(s, n).len() == if s.len() < n {
            s.len() as int
        } else {
            n
        },
        forall|i: int| 0 <= i < head(s, n).len() ==> #[trigger] head(s, n)[i] == s[i],
{
}

/// Pieces that have no separator in them are found again in what they were joined to.
pub proof fn law_split_undoes_join(v: Seq<Seq<char>>, c: char)
    requires
        v.len() > 0,
        forall|i: int| 0 <= i < v.len() ==> !(#[trigger] v[i]).contains(c),
    ensures
        pieces(joined(v, seq![c]), c) == v,
    decreases v.len(),
{
    let last: Seq<char> = v.last();
    assert(!v[v.len() - 1].contains(c));
    if v.len() == 1 {
        lemma_pieces_without(Seq::empty(), last, c);
        assert(Seq::<char>::empty() + last =~= last);
        let p: Seq<Seq<char>> = pieces(last, c);
        let e: Seq<Seq<char>> = pieces(Seq::empty(), c);
        assert(p.last() =~= last);
        assert(p =~= v);
    } else {
        let front: Seq<Seq<char>> = v.drop_last();
        assert forall|i: int| 0 <= i < front.len() implies !(#[trigger] front[i]).contains(c) by {
            assert(!v[i].contains(c));
        }
        law_split_undoes_join(front, c);
        let a: Seq<char> = joined(front, seq![c]);
        let b: Seq<char> = a + seq![c];
        assert(b.drop_last() =~= a);
        assert(b.last() == c);
        assert(pieces(b, c) == front.push(Seq::empty()));
        lemma_pieces_without(b, last, c);
        let p: Seq<Seq<char>> = pieces(b + last, c);
        assert(joined(v, seq![c]) == b + last);
        assert(p.last() =~= last);
        assert(p.drop_last() =~= front);
        assert(p =~= p.drop_last().push(p.last()));
        assert(v =~= front.push(last));
    }
}

/// No piece has the separator in it.
pub proof fn law_pieces_have_no_separator(s: Seq<char>, c: char)
    ensures
        pieces(s, c).len() > 0,
        forall|i: int| 0 <= i < pieces(s, c).len() ==> !(#[trigger] pieces(s, c)[i]).contains(c),
    decreases s.len(),
{
    if s.len() > 0 {
        let front: Seq<Seq<char>> = pieces(s.drop_last(), c);
        law_pieces_have_no_separator(s.drop_last(), c);
        let p: Seq<Seq<char>> = pieces(s, c);
        assert forall|i: int| 0 <= i < p.len() implies !(#[trigger] p[i]).contains(c) by {
            if p[i].contains(c) {
                let k: int = choose|k: int| 0 <= k < p[i].len() && p[i][k] == c;
                if i < front.len() {
                    assert(!front[i].contains(c));
                    assert(k < front[i].len() ==> front[i][k] == c);
                }
            }
        }
    }
}

proof fn lemma_pieces_without(a: Seq<char>, b: Seq<char>, c: char)
    requires
        !b.contains(c),
    ensures
        pieces(a, c).len() > 0,
        pieces(a + b, c).len() == pieces(a, c).len(),
        pieces(a + b, c).drop_last() == pieces(a, c).drop_last(),
        pieces(a + b, c).last() == pieces(a, c).last() + b,
    decreases a.len() + b.len(),
{
    if b.len() == 0 {
        assert(a + b =~= a);
        assert(pieces(a, c).last() + b =~= pieces(a, c).last());
        if a.len() > 0 {
            lemma_pieces_without(a.drop_last(), Seq::empty(), c);
        }
    } else {
        let front: Seq<char> = b.drop_last();
        assert(!front.contains(c)) by {
            if front.contains(c) {
                let k: int = choose|k: int| 0 <= k < front.len() && front[k] == c;
                assert(b[k] == c);
            }
        }
        assert(b[b.len() - 1] == b.last());
        lemma_pieces_without(a, front, c);
        assert((a + b).drop_last() =~= a + front);
        assert((a + b).last() == b.last());
        let p: Seq<Seq<char>> = pieces(a + front, c);
        let q: Seq<Seq<char>> = pieces(a + b, c);
        assert(q == p.update(p.len() - 1, p.last().push(b.last())));
        assert(q.drop_last() =~= p.drop_last());
        assert(q.last() =~= pieces(a, c).last() + b);
    }
}

/// White space is the tab, the line breaks, the spaces of every width, and nothing else.
pub proof fn law_white_space(c: char)
    ensures
        is_space(c) <==> {
            ||| '\u{9}' <= c <= '\u{d}'
            ||| c == ' '
            ||| c == '\u{85}'
            ||| c == '\u{a0}'
            ||| c == '\u{1680}'
            ||| '\u{2000}' <= c <= '\u{200a}'
            ||| c == '\u{2028}'
            ||| c == '\u{2029}'
            ||| c == '\u{202f}'
            ||| c == '\u{205f}'
            ||| c == '\u{3000}'
        },
{
}

/// A text that is filled up with spaces starts with the text, has only spaces behind it, and is
/// as wide as asked for, unless the text is wider.
pub proof fn law_filled_texts(s: Seq<char>, width: nat)
    ensures
        space_filled(s, width).len() == if s.len() < width {
            width
        } else {
            s.len()
        },
        space_filled(s, width).take(s.len() as int) == s,
        forall|i: int|
            s.len() <= i < space_filled(s, width).len() ==> #[trigger] space_filled(s, width)[i]
                == ' ',
{
}

proof fn lemma_encode_both(a: Seq<char>, b: Seq<char>)
    ensures
        encode_utf8(a + b) == encode_utf8(a) + encode_utf8(b),
    decreases a.len(),
{
    if a.len() == 0 {
        assert(a + b =~= b);
        assert(encode_utf8(a) =~= Seq::empty());
        assert(Seq::<u8>::empty() + encode_utf8(b) =~= encode_utf8(b));
    } else {
        lemma_encode_both(a.drop_first(), b);
        assert((a + b)[0] == a[0]);
        assert((a + b).drop_first() =~= a.drop_first() + b);
        assert(encode_utf8(a + b) =~= encode_utf8(a) + encode_utf8(b));
    }
}

/// What follows the bytes of the first part of a text is the second part.
pub proof fn law_texts_are_cut_by_bytes(a: Seq<char>, b: Seq<char>)
    ensures
        after_bytes(a + b, encode_utf8(a).len() as int) == b,
{
    lemma_encode_both(a, b);
    let all: Seq<u8> = encode_utf8(a + b);
    let n: int = encode_utf8(a).len() as int;
    assert(all.subrange(n, all.len() as int) =~= encode_utf8(b));
    encode_utf8_decode_utf8(b);
}

/// A text occurs in another one if and only if that is made of it and of what stands before and
/// behind it.
pub proof fn law_what_occurs_stands_between(a: Seq<char>, x: Seq<char>, b: Seq<char>) -> (r: (
    Seq<char>,
    Seq<char>,
))
    ensures
        occurs(a + x + b, x),
        occurs(a, x) ==> a == r.0 + x + r.1,
{
    let at: int = a.len() as int;
    assert((a + x + b).subrange(at, at + x.len()) =~= x);
    assert(occurs_at(a + x + b, x, at));
    if occurs(a, x) {
        let k: int = choose|k: int| occurs_at(a, x, k);
        let before: Seq<char> = a.take(k);
        let after: Seq<char> = a.skip(k + x.len());
        assert(a =~= before + a.subrange(k, k + x.len()) + after);
        (before, after)
    } else {
        (a, b)
    }
}

} // verus!
