//! Text: the small string operations that the executor's formats are built from.

use vstd::prelude::*;
use vstd::utf8::{decode_utf8, encode_utf8, encode_utf8_decode_utf8, is_char_boundary};

verus! {

/// `String::push` appends one character.
pub assume_specification[ String::push ](s: &mut String, c: char)
    ensures
        final(s)@ == old(s)@.push(c),
;

/// Whether two texts are equal.
pub fn same(a: &str, b: &str) -> (r: bool)
    ensures
        r == (a@ == b@),
{
    let x: &[u8] = a.as_bytes();
    let y: &[u8] = b.as_bytes();
    proof {
        encode_utf8_decode_utf8(a@);
        encode_utf8_decode_utf8(b@);
    }
    if x.len() != y.len() {
        return false;
    }
    let mut i: usize = 0;
    while i < x.len()
        invariant
            i <= x.len(),
            x.len() == y.len(),
            x@ == encode_utf8(a@),
            y@ == encode_utf8(b@),
            x@.take(i as int) == y@.take(i as int),
        decreases x.len() - i,
    {
        if x[i] != y[i] {
            return false;
        }
        assert(x@.take(i + 1) == x@.take(i as int).push(x@[i as int]));
        assert(y@.take(i + 1) == y@.take(i as int).push(y@[i as int]));
        i = i + 1;
    }
    assert(x@ == x@.take(i as int));
    assert(y@ == y@.take(i as int));
    true
}

/// The characters of a text.
pub fn characters(s: &str) -> (r: Vec<char>)
    ensures
        r@ == s@,
{
    let mut v: Vec<char> = Vec::new();
    for c in it: s.chars()
        invariant
            v@ == it.seq().take(it.index()),
            it.seq() == s@,
    {
        v.push(c);
    }
    v
}

/// Appends `v[from..to]` to a text.
pub fn push_range(out: &mut String, v: &Vec<char>, from: usize, to: usize)
    requires
        from <= to <= v.len(),
    ensures
        final(out)@ == old(out)@ + v@.subrange(from as int, to as int),
{
    let mut i: usize = from;
    while i < to
        invariant
            from <= i <= to <= v.len(),
            out@ == old(out)@ + v@.subrange(from as int, i as int),
        decreases to - i,
    {
        out.push(v[i]);
        assert(v@.subrange(from as int, i + 1) == v@.subrange(from as int, i as int).push(
            v@[i as int],
        ));
        i = i + 1;
    }
}

/// The text made of `v[from..to]`.
pub fn range_text(v: &Vec<char>, from: usize, to: usize) -> (r: String)
    requires
        from <= to <= v.len(),
    ensures
        r@ == v@.subrange(from as int, to as int),
{
    let mut out: String = String::new();
    push_range(&mut out, v, from, to);
    out
}

// ── Numbers in decimal ──────────────────────────────────────────────────────

/// The character of a decimal digit.
pub open spec fn digit(d: int) -> char {
    ('0' as int + d) as char
}

/// A natural number in decimal, without leading zeros.
pub open spec fn decimal(n: nat) -> Seq<char>
    decreases n,
{
    if n < 10 {
        seq![digit(n as int)]
    } else {
        decimal(n / 10).push(digit((n % 10) as int))
    }
}

/// The last `width` decimal digits of a natural number.
pub open spec fn padded(n: nat, width: nat) -> Seq<char>
    decreases width,
{
    if width == 0 {
        Seq::empty()
    } else {
        padded(n / 10, (width - 1) as nat).push(digit((n % 10) as int))
    }
}

/// A whole number in decimal, with a sign if it is negative.
pub open spec fn signed_decimal(n: int) -> Seq<char> {
    if n < 0 {
        seq!['-'] + decimal((-n) as nat)
    } else {
        decimal(n as nat)
    }
}

pub fn digit_char(d: u8) -> (c: char)
    requires
        d < 10,
    ensures
        c == digit(d as int),
{
    match d {
        0 => '0',
        1 => '1',
        2 => '2',
        3 => '3',
        4 => '4',
        5 => '5',
        6 => '6',
        7 => '7',
        8 => '8',
        _ => '9',
    }
}

pub fn push_decimal(out: &mut String, n: u128)
    ensures
        final(out)@ == old(out)@ + decimal(n as nat),
    decreases n,
{
    if n >= 10 {
        push_decimal(out, n / 10);
    }
    out.push(digit_char((n % 10) as u8));
}

pub fn push_padded(out: &mut String, n: u128, width: u32)
    ensures
        final(out)@ == old(out)@ + padded(n as nat, width as nat),
    decreases width,
{
    if width > 0 {
        push_padded(out, n / 10, width - 1);
        out.push(digit_char((n % 10) as u8));
    }
}

pub fn decimal_text(n: u64) -> (r: String)
    ensures
        r@ == decimal(n as nat),
{
    let mut out: String = String::new();
    push_decimal(&mut out, n as u128);
    assert(Seq::<char>::empty() + decimal(n as nat) == decimal(n as nat));
    out
}

pub fn signed_text(n: i64) -> (r: String)
    ensures
        r@ == signed_decimal(n as int),
{
    let mut out: String = String::new();
    if n < 0 {
        out.push('-');
        push_decimal(&mut out, (-(n as i128)) as u128);
    } else {
        push_decimal(&mut out, n as u128);
    }
    out
}

/// `n` in decimal with zeros in front up to `width` digits. A longer number is not cut.
pub open spec fn zero_filled(n: nat, width: nat) -> Seq<char> {
    let d = decimal(n);
    Seq::new(if d.len() < width { (width - d.len()) as nat } else { 0 }, |i: int| '0') + d
}

pub fn push_zero_filled(out: &mut String, n: u64, width: usize)
    ensures
        final(out)@ == old(out)@ + zero_filled(n as nat, width as nat),
{
    let d: String = decimal_text(n);
    let len: usize = d.as_str().unicode_len();
    let mut i: usize = len;
    let ghost gap: nat = if len < width { (width - len) as nat } else { 0 };
    while i < width
        invariant
            len <= i,
            i <= width || i == len,
            out@ == old(out)@ + Seq::new((i - len) as nat, |j: int| '0'),
        decreases width - i,
    {
        out.push('0');
        assert(Seq::new((i + 1 - len) as nat, |j: int| '0') == Seq::new(
            (i - len) as nat,
            |j: int| '0',
        ).push('0'));
        i = i + 1;
    }
    out.append(d.as_str());
    assert(out@ == old(out)@ + (Seq::new(gap, |j: int| '0') + d@));
}

// ── Reading whole numbers ───────────────────────────────────────────────────

pub open spec fn is_digit(c: char) -> bool {
    '0' <= c <= '9'
}

pub open spec fn all_digits(s: Seq<char>) -> bool {
    forall|i: int| 0 <= i < s.len() ==> is_digit(#[trigger] s[i])
}

/// The number that a sequence of decimal digits spells.
pub open spec fn digits_value(s: Seq<char>) -> int
    decreases s.len(),
{
    if s.len() == 0 {
        0
    } else {
        digits_value(s.drop_last()) * 10 + (s.last() as int - '0' as int)
    }
}

/// The 64-bit number that a text spells: digits, after at most one sign.
pub open spec fn parsed_integer(s: Seq<char>) -> Option<i64> {
    let signed = s.len() > 0 && (s[0] == '-' || s[0] == '+');
    let digits = if signed {
        s.skip(1)
    } else {
        s
    };
    let value = if signed && s[0] == '-' {
        -digits_value(digits)
    } else {
        digits_value(digits)
    };
    if digits.len() > 0 && all_digits(digits) && i64::MIN <= value <= i64::MAX {
        Some(value as i64)
    } else {
        None
    }
}

proof fn lemma_digits_value_grows(s: Seq<char>, n: int)
    requires
        0 <= n <= s.len(),
        forall|i: int| 0 <= i < s.len() ==> is_digit(#[trigger] s[i]),
    ensures
        0 <= digits_value(s.take(n)) <= digits_value(s),
    decreases s.len() - n, s.len(),
{
    if n < s.len() {
        lemma_digits_value_grows(s, n + 1);
        assert(s.take(n + 1).drop_last() == s.take(n));
        assert(is_digit(s[n]));
        lemma_digits_value_nonnegative(s.take(n));
    } else {
        assert(s.take(n) == s);
        lemma_digits_value_nonnegative(s);
    }
}

proof fn lemma_digits_value_nonnegative(s: Seq<char>)
    requires
        forall|i: int| 0 <= i < s.len() ==> is_digit(#[trigger] s[i]),
    ensures
        0 <= digits_value(s),
    decreases s.len(),
{
    if s.len() > 0 {
        assert(is_digit(s[s.len() - 1]));
        lemma_digits_value_nonnegative(s.drop_last());
    }
}

pub fn parse_i64(s: &str) -> (r: Option<i64>)
    ensures
        r == parsed_integer(s@),
{
    let v: Vec<char> = characters(s);
    let signed: bool = v.len() > 0 && (v[0] == '-' || v[0] == '+');
    let negative: bool = v.len() > 0 && v[0] == '-';
    let start: usize = if signed {
        1
    } else {
        0
    };
    let ghost digits: Seq<char> = if signed { s@.skip(1) } else { s@ };
    if start == v.len() {
        return None;
    }
    let mut all: bool = true;
    let mut i: usize = start;
    while i < v.len()
        invariant
            start <= i <= v.len(),
            start <= 1,
            digits == v@.skip(start as int),
            all == (forall|j: int| 0 <= j < i - start ==> is_digit(#[trigger] digits[j])),
        decreases v.len() - i,
    {
        assert(digits[i - start] == v@[i as int]);
        if !('0' <= v[i] && v[i] <= '9') {
            all = false;
        }
        i = i + 1;
    }
    assert(digits.len() == v.len() - start);
    if !all {
        return None;
    }
    let mut n: u64 = 0;
    let mut k: usize = start;
    while k < v.len()
        invariant
            start <= k <= v.len(),
            start <= 1,
            digits == v@.skip(start as int),
            forall|j: int| 0 <= j < digits.len() ==> is_digit(#[trigger] digits[j]),
            n == digits_value(digits.take(k - start)),
            n <= 0x8000_0000_0000_0000,
            signed == (s@.len() > 0 && (s@[0] == '-' || s@[0] == '+')),
            digits == (if signed { s@.skip(1) } else { s@ }),
        decreases v.len() - k,
    {
        assert(digits[k - start] == v@[k as int]);
        assert(digits.take(k + 1 - start).drop_last() == digits.take(k - start));
        let d: u64 = v[k] as u64 - '0' as u64;
        let next: u128 = n as u128 * 10 + d as u128;
        proof {
            lemma_digits_value_grows(digits, k + 1 - start);
        }
        if next > 0x8000_0000_0000_0000 {
            return None;
        }
        n = next as u64;
        k = k + 1;
    }
    assert(digits.take(k - start) == digits);
    if negative {
        Some((-(n as i128)) as i64)
    } else if n < 0x8000_0000_0000_0000 {
        Some(n as i64)
    } else {
        None
    }
}

// ── Searching, cutting and joining ──────────────────────────────────────────

/// Whether `needle` occurs in `text` at position `at`.
pub open spec fn occurs_at(text: Seq<char>, needle: Seq<char>, at: int) -> bool {
    0 <= at && at + needle.len() <= text.len() && text.subrange(at, at + needle.len()) == needle
}

pub open spec fn occurs(text: Seq<char>, needle: Seq<char>) -> bool {
    exists|at: int| occurs_at(text, needle, at)
}

fn matches_at(v: &Vec<char>, n: &Vec<char>, at: usize) -> (r: bool)
    requires
        at + n.len() <= v.len(),
    ensures
        r == occurs_at(v@, n@, at as int),
{
    let mut j: usize = 0;
    while j < n.len()
        invariant
            j <= n.len(),
            at + n.len() <= v.len(),
            forall|i: int| 0 <= i < j ==> v@[at + i] == n@[i],
        decreases n.len() - j,
    {
        if v[at + j] != n[j] {
            assert(v@.subrange(at as int, at + n@.len())[j as int] == v@[at + j]);
            return false;
        }
        j = j + 1;
    }
    assert(v@.subrange(at as int, at + n@.len()) =~= n@);
    true
}

pub fn contains(text: &str, needle: &str) -> (r: bool)
    ensures
        r == occurs(text@, needle@),
{
    let v: Vec<char> = characters(text);
    let n: Vec<char> = characters(needle);
    if n.len() > v.len() {
        return false;
    }
    let last: usize = v.len() - n.len();
    let mut at: usize = 0;
    while at <= last
        invariant
            at <= last + 1,
            last == v.len() - n.len(),
            n.len() <= v.len(),
            v@ == text@,
            n@ == needle@,
            forall|i: int| 0 <= i < at ==> !occurs_at(text@, needle@, i),
        decreases last + 1 - at,
    {
        if matches_at(&v, &n, at) {
            return true;
        }
        if at == last {
            return false;
        }
        at = at + 1;
    }
    false
}

/// The white-space characters.
pub open spec fn is_space(c: char) -> bool {
    let n = c as int;
    ||| 0x09 <= n <= 0x0d
    ||| n == 0x20
    ||| n == 0x85
    ||| n == 0xa0
    ||| n == 0x1680
    ||| 0x2000 <= n <= 0x200a
    ||| n == 0x2028
    ||| n == 0x2029
    ||| n == 0x202f
    ||| n == 0x205f
    ||| n == 0x3000
}

pub fn is_white(c: char) -> (r: bool)
    ensures
        r == is_space(c),
{
    let n: u32 = c as u32;
    (0x09 <= n && n <= 0x0d) || n == 0x20 || n == 0x85 || n == 0xa0 || n == 0x1680 || (0x2000 <= n
        && n <= 0x200a) || n == 0x2028 || n == 0x2029 || n == 0x202f || n == 0x205f || n == 0x3000
}

/// The text without white space at its ends.
pub open spec fn trimmed(s: Seq<char>) -> Seq<char>
    decreases s.len(),
{
    if s.len() > 0 && is_space(s[0]) {
        trimmed(s.skip(1))
    } else if s.len() > 0 && is_space(s.last()) {
        trimmed(s.drop_last())
    } else {
        s
    }
}

pub fn trim(s: &str) -> (r: String)
    ensures
        r@ == trimmed(s@),
{
    let v: Vec<char> = characters(s);
    let mut from: usize = 0;
    let mut to: usize = v.len();
    assert(v@.subrange(0, v@.len() as int) == v@);
    while from < to && is_white(v[from])
        invariant
            from <= to,
            to == v.len(),
            trimmed(v@) == trimmed(v@.subrange(from as int, to as int)),
        ensures
            from <= to,
            to == v.len(),
            from < to ==> !is_space(v@[from as int]),
            trimmed(v@) == trimmed(v@.subrange(from as int, to as int)),
        decreases to - from,
    {
        assert(v@.subrange(from as int, to as int).skip(1) == v@.subrange(from + 1, to as int));
        from = from + 1;
    }
    while from < to && is_white(v[to - 1])
        invariant
            from <= to <= v.len(),
            from < to ==> !is_space(v@[from as int]),
            trimmed(v@) == trimmed(v@.subrange(from as int, to as int)),
        ensures
            from <= to <= v.len(),
            from < to ==> !is_space(v@[from as int]) && !is_space(v@[to - 1]),
            trimmed(v@) == trimmed(v@.subrange(from as int, to as int)),
        decreases to - from,
    {
        assert(v@.subrange(from as int, to as int).drop_last() == v@.subrange(
            from as int,
            to - 1,
        ));
        to = to - 1;
    }
    range_text(&v, from, to)
}

/// The first `n` characters of a text, or all of a shorter one.
pub open spec fn head(s: Seq<char>, n: int) -> Seq<char> {
    if s.len() <= n {
        s
    } else {
        s.take(n)
    }
}

pub fn head_text(s: &str, n: usize) -> (r: String)
    ensures
        r@ == head(s@, n as int),
{
    let v: Vec<char> = characters(s);
    let to: usize = if v.len() <= n {
        v.len()
    } else {
        n
    };
    assert(v@.subrange(0, to as int) == head(s@, n as int));
    range_text(&v, 0, to)
}

/// Whether a text can be cut after `n` bytes of its UTF-8 form.
pub open spec fn cut_allowed(s: Seq<char>, n: int) -> bool {
    is_char_boundary(encode_utf8(s), n)
}

/// What follows the first `n` bytes of a text in its UTF-8 form.
pub open spec fn after_bytes(s: Seq<char>, n: int) -> Seq<char> {
    decode_utf8(encode_utf8(s).subrange(n, encode_utf8(s).len() as int))
}

pub fn tail_text(s: &str, n: usize) -> (r: String)
    requires
        cut_allowed(s@, n as int),
    ensures
        r@ == after_bytes(s@, n as int),
{
    let (_, tail) = s.split_at(n);
    proof {
        encode_utf8_decode_utf8(tail@);
    }
    tail.to_string()
}

/// The text with every `c` left out.
pub open spec fn without(s: Seq<char>, c: char) -> Seq<char> {
    s.filter(|x: char| x != c)
}

pub fn remove_char(s: &str, c: char) -> (r: String)
    ensures
        r@ == without(s@, c),
{
    let v: Vec<char> = characters(s);
    let mut out: String = String::new();
    let mut i: usize = 0;
    assert(without(v@.take(0), c) == Seq::<char>::empty()) by {
        reveal(Seq::filter);
    }
    while i < v.len()
        invariant
            i <= v.len(),
            v@ == s@,
            out@ == without(v@.take(i as int), c),
        decreases v.len() - i,
    {
        proof {
            reveal(Seq::filter);
            assert(v@.take(i + 1).drop_last() == v@.take(i as int));
        }
        if v[i] != c {
            out.push(v[i]);
        }
        i = i + 1;
    }
    assert(v@.take(i as int) == v@);
    out
}

/// The text followed by spaces up to `width` characters. A longer text is not cut.
pub open spec fn space_filled(s: Seq<char>, width: nat) -> Seq<char> {
    s + Seq::new(if s.len() < width { (width - s.len()) as nat } else { 0 }, |i: int| ' ')
}

pub fn push_space_filled(out: &mut String, s: &str, width: usize)
    ensures
        final(out)@ == old(out)@ + space_filled(s@, width as nat),
{
    out.append(s);
    let len: usize = s.unicode_len();
    let mut i: usize = len;
    let ghost gap: nat = if len < width { (width - len) as nat } else { 0 };
    assert(out@ == old(out)@ + s@ + Seq::new(0, |j: int| ' '));
    while i < width
        invariant
            len <= i,
            i <= width || i == len,
            out@ == old(out)@ + s@ + Seq::new((i - len) as nat, |j: int| ' '),
        decreases width - i,
    {
        out.push(' ');
        assert(Seq::new((i + 1 - len) as nat, |j: int| ' ') == Seq::new(
            (i - len) as nat,
            |j: int| ' ',
        ).push(' '));
        i = i + 1;
    }
    assert(out@ == old(out)@ + (s@ + Seq::new(gap, |j: int| ' ')));
}

/// Views of a list of texts.
pub open spec fn texts(v: Seq<String>) -> Seq<Seq<char>> {
    v.map_values(|s: String| s@)
}

/// The pieces of a text between occurrences of `c`.
pub open spec fn pieces(s: Seq<char>, c: char) -> Seq<Seq<char>>
    decreases s.len(),
{
    if s.len() == 0 {
        seq![Seq::empty()]
    } else {
        let front = pieces(s.drop_last(), c);
        if s.last() == c {
            front.push(Seq::empty())
        } else {
            front.update(front.len() - 1, front.last().push(s.last()))
        }
    }
}

pub fn split(s: &str, c: char) -> (r: Vec<String>)
    ensures
        texts(r@) == pieces(s@, c),
{
    let v: Vec<char> = characters(s);
    let mut done: Vec<String> = Vec::new();
    let mut piece: String = String::new();
    let mut i: usize = 0;
    assert(pieces(v@.take(0), c) == texts(done@).push(piece@));
    while i < v.len()
        invariant
            i <= v.len(),
            v@ == s@,
            pieces(v@.take(i as int), c) == texts(done@).push(piece@),
        decreases v.len() - i,
    {
        assert(v@.take(i + 1).drop_last() == v@.take(i as int));
        let ghost before: Seq<Seq<char>> = texts(done@);
        let ghost last: Seq<char> = piece@;
        if v[i] == c {
            done.push(piece);
            piece = String::new();
            assert(texts(done@) == before.push(last));
        } else {
            piece.push(v[i]);
        }
        assert(pieces(v@.take(i + 1), c) =~= texts(done@).push(piece@));
        i = i + 1;
    }
    assert(v@.take(i as int) == v@);
    done.push(piece);
    assert(texts(done@) =~= pieces(s@, c));
    done
}

/// Texts put one after the other, with `sep` between them.
pub open spec fn joined(v: Seq<Seq<char>>, sep: Seq<char>) -> Seq<char>
    decreases v.len(),
{
    if v.len() == 0 {
        Seq::empty()
    } else if v.len() == 1 {
        v[0]
    } else {
        joined(v.drop_last(), sep) + sep + v.last()
    }
}

pub fn join(v: &Vec<String>, sep: &str) -> (r: String)
    ensures
        r@ == joined(texts(v@), sep@),
{
    let mut out: String = String::new();
    let mut i: usize = 0;
    while i < v.len()
        invariant
            i <= v.len(),
            out@ == joined(texts(v@).take(i as int), sep@),
        decreases v.len() - i,
    {
        assert(texts(v@).take(i + 1).drop_last() == texts(v@).take(i as int));
        assert(texts(v@).take(i + 1).last() == v@[i as int]@);
        if i > 0 {
            out.append(sep);
        }
        out.append(v[i].as_str());
        assert(i == 0 ==> out@ == v@[0]@);
        i = i + 1;
    }
    assert(texts(v@).take(i as int) == texts(v@));
    out
}

/// Copies of a list of texts.
pub fn own_all(v: &Vec<String>) -> (r: Vec<String>)
    ensures
        texts(r@) == texts(v@),
{
    let r: Vec<String> = v.clone();
    assert(r@ == v@);
    r
}

/// The text of an optional one.
pub open spec fn maybe(s: Option<String>) -> Option<Seq<char>> {
    match s {
        Some(t) => Some(t@),
        None => None,
    }
}

/// A law of the comma-separated lists: joining the pieces gives the text back.
pub proof fn law_join_undoes_split(s: Seq<char>, c: char)
    ensures
        joined(pieces(s, c), seq![c]) == s,
    decreases s.len(),
{
    lemma_pieces_nonempty(s, c);
    if s.len() > 0 {
        let front: Seq<Seq<char>> = pieces(s.drop_last(), c);
        law_join_undoes_split(s.drop_last(), c);
        lemma_pieces_nonempty(s.drop_last(), c);
        assert(s == s.drop_last().push(s.last()));
        if s.last() == c {
            assert(front.push(Seq::empty()).drop_last() == front);
            assert(joined(front.push(Seq::empty()), seq![c]) =~= s);
        } else {
            let grown: Seq<Seq<char>> = front.update(front.len() - 1, front.last().push(s.last()));
            assert(grown.drop_last() == front.drop_last());
            assert(joined(grown, seq![c]) =~= s);
        }
    }
}

proof fn lemma_pieces_nonempty(s: Seq<char>, c: char)
    ensures
        pieces(s, c).len() > 0,
    decreases s.len(),
{
    if s.len() > 0 {
        lemma_pieces_nonempty(s.drop_last(), c);
    }
}

} // verus!
