//! The mood rating: a whole number from 1 to 100 on a line of its own.
use vstd::prelude::*;
use vstd::string::*;
use crate::text::{is_white, lemma_trim_unchanged, trim, trim_bounds};

verus! {

pub open spec fn is_digit(c: char) -> bool {
    '0' <= c && c <= '9'
}

pub open spec fn digit_value(c: char) -> nat {
    (c as u32 - '0' as u32) as nat
}

pub open spec fn all_digits(s: Seq<char>) -> bool {
    forall|i: int| 0 <= i < s.len() ==> is_digit(#[trigger] s[i])
}

/// The number that a run of decimal digits writes.
pub open spec fn decimal_value(s: Seq<char>) -> nat
    decreases s.len(),
{
    if s.len() == 0 {
        0
    } else {
        decimal_value(s.drop_last()) * 10 + digit_value(s.last())
    }
}

/// The text after an optional leading `+`.
pub open spec fn unsigned_digits(t: Seq<char>) -> Seq<char> {
    if t.len() > 0 && t[0] == '+' {
        t.drop_first()
    } else {
        t
    }
}

/// What `u8::from_str` accepts: an optional `+`, then one or more decimal
/// digits whose value fits in eight bits.
pub open spec fn u8_text_value(t: Seq<char>) -> Option<nat> {
    let d = unsigned_digits(t);
    if d.len() > 0 && all_digits(d) && decimal_value(d) <= 255 {
        Some(decimal_value(d))
    } else {
        None
    }
}

/// Ratings that an entry may carry lie in this closed range.
pub open spec fn rating_in_range(n: int) -> bool {
    1 <= n <= 100
}

/// The rating that a line gives: the trimmed line read as an eight-bit
/// number, kept only where it lies in 1..=100.
pub open spec fn rating_of(line: Seq<char>) -> Option<u8> {
    match u8_text_value(trim(line)) {
        Some(v) => if rating_in_range(v as int) {
            Some(v as u8)
        } else {
            None
        },
        None => None,
    }
}

proof fn lemma_decimal_value_grows(s: Seq<char>, i: int)
    requires
        0 <= i < s.len(),
    ensures
        decimal_value(s.subrange(0, i + 1)) == decimal_value(s.subrange(0, i)) * 10
            + digit_value(s[i]),
{
    assert(s.subrange(0, i + 1).drop_last() =~= s.subrange(0, i));
}

/// Reads a rating from one line of input.
pub fn parse_rating(line: &str) -> (r: Option<u8>)
    ensures
        r == rating_of(line@),
{
    let (a, b) = trim_bounds(line);
    let ghost t = line@.subrange(a as int, b as int);
    let mut start: usize = a;
    if a < b && line.get_char(a) == '+' {
        start = a + 1;
    }
    let ghost d = line@.subrange(start as int, b as int);
    assert(d == unsigned_digits(t)) by {
        assert(t.len() > 0 ==> t.drop_first() =~= line@.subrange(a + 1, b as int));
        assert(d =~= t || d =~= t.drop_first());
    }
    if start == b {
        return None;
    }
    let mut value: u32 = 0;
    let mut big: bool = false;
    let mut i: usize = start;
    while i < b
        invariant
            a <= start <= i <= b <= line@.len(),
            d == line@.subrange(start as int, b as int),
            d == unsigned_digits(t),
            t == trim(line@),
            all_digits(d.subrange(0, i - start)),
            !big ==> value as nat == decimal_value(d.subrange(0, i - start)),
            !big ==> value <= 255,
            big ==> decimal_value(d.subrange(0, i - start)) > 255,
        decreases b - i,
    {
        let c = line.get_char(i);
        if !('0' <= c && c <= '9') {
            assert(d[i - start] == c);
            assert(!is_digit(d[i - start]));
            assert(!all_digits(d));
            assert(u8_text_value(t) is None);
            return None;
        }
        proof {
            lemma_decimal_value_grows(d, i - start);
            assert(d.subrange(0, i + 1 - start) =~= d.subrange(0, i - start).push(c));
        }
        if !big {
            value = value * 10 + (c as u32 - '0' as u32);
            if value > 255 {
                big = true;
            }
        }
        i = i + 1;
    }
    assert(d.subrange(0, (b - start) as int) =~= d);
    if big || value < 1 || value > 100 {
        None
    } else {
        Some(value as u8)
    }
}

/// The decimal digit for a value below ten.
pub open spec fn digit_char(d: nat) -> char
    recommends
        d < 10,
{
    seq!['0', '1', '2', '3', '4', '5', '6', '7', '8', '9'][d as int]
}

/// How a natural number is written in decimal, with no sign and no
/// leading zeros.
pub open spec fn decimal_text(n: nat) -> Seq<char>
    decreases n,
{
    if n < 10 {
        seq![digit_char(n)]
    } else {
        decimal_text(n / 10).push(digit_char(n % 10))
    }
}

proof fn lemma_digit_char(d: nat)
    requires
        d < 10,
    ensures
        is_digit(digit_char(d)),
        digit_value(digit_char(d)) == d,
        !is_white(digit_char(d)),
{
    if d == 0 {
    } else if d == 1 {
    } else if d == 2 {
    } else if d == 3 {
    } else if d == 4 {
    } else if d == 5 {
    } else if d == 6 {
    } else if d == 7 {
    } else if d == 8 {
    } else {
    }
}

proof fn lemma_decimal_text(n: nat)
    ensures
        decimal_text(n).len() > 0,
        all_digits(decimal_text(n)),
        decimal_value(decimal_text(n)) == n,
        forall|i: int| 0 <= i < decimal_text(n).len() ==> !is_white(#[trigger] decimal_text(n)[i]),
    decreases n,
{
    if n < 10 {
        lemma_digit_char(n);
        assert(decimal_text(n).drop_last() =~= Seq::<char>::empty());
        assert(decimal_value(Seq::<char>::empty()) == 0);
    } else {
        lemma_decimal_text(n / 10);
        lemma_digit_char(n % 10);
        let p = decimal_text(n / 10);
        assert(decimal_text(n).drop_last() =~= p);
        assert(decimal_text(n).last() == digit_char(n % 10));
        assert(n / 10 * 10 + n % 10 == n);
    }
}

/// A number written in decimal is taken as a rating exactly when it lies
/// in 1..=100, and then as itself.
pub proof fn lemma_rating_accepts_exactly_in_range(n: nat)
    ensures
        rating_of(decimal_text(n)) == if rating_in_range(n as int) {
            Some(n as u8)
        } else {
            None::<u8>
        },
{
    let t = decimal_text(n);
    lemma_decimal_text(n);
    lemma_trim_unchanged(t);
    assert(unsigned_digits(t) == t);
}

/// A number written with a minus sign is never taken as a rating, zero
/// included.
pub proof fn lemma_rating_rejects_negative(n: nat)
    ensures
        rating_of(seq!['-'] + decimal_text(n)) is None,
{
    let t = seq!['-'] + decimal_text(n);
    lemma_decimal_text(n);
    assert(t.last() == decimal_text(n).last());
    lemma_trim_unchanged(t);
    assert(unsigned_digits(t) == t);
    assert(!is_digit(t[0]));
}

/// Only digits, after an optional `+` and once trimmed, make a rating: a
/// line with any other character in it is turned down.
pub proof fn lemma_rating_needs_digits(line: Seq<char>)
    ensures
        rating_of(line) is Some ==> unsigned_digits(trim(line)).len() > 0 && all_digits(
            unsigned_digits(trim(line)),
        ),
{
}

} // verus!
