//! The mood word: a single token, not a number, kept in lower case.
use vstd::prelude::*;
use vstd::string::*;
use crate::text::{is_white, is_white_char, lemma_trim_ends, lemma_trim_unchanged, trim, trim_bounds};
use crate::rating::{all_digits, is_digit};

verus! {

/// The lower-case form that `str::to_lowercase` gives of a text.
pub uninterp spec fn lower_of(s: Seq<char>) -> Seq<char>;

/// Relies on `str::to_lowercase`: its result depends on the characters
/// alone; each character becomes one or more, so an empty text stays empty
/// and any other stays non-empty.
#[verifier::external_body]
fn lowercase(s: &str) -> (r: String)
    ensures
        r@ == lower_of(s@),
        s@.len() == 0 ==> r@.len() == 0,
        s@.len() > 0 ==> r@.len() > 0,
{
    s.to_lowercase()
}

/// Why a line was not taken as the mood word.
#[derive(Clone, Copy, Debug, PartialEq, Eq, Structural)]
pub enum WordError {
    /// The line holds no token, or more than one.
    NotSingleWord,
    /// The one token reads as a floating-point number.
    Numeric,
}

/// The one whitespace-separated token of a line, where it has exactly one:
/// what `split_whitespace` yields then is the trimmed line.
pub open spec fn single_token(line: Seq<char>) -> Option<Seq<char>> {
    let t = trim(line);
    if t.len() > 0 && (forall|i: int| 0 <= i < t.len() ==> !is_white(#[trigger] t[i])) {
        Some(t)
    } else {
        None
    }
}

/// The number of decimal digits in a row from position `i` on.
pub open spec fn digit_run(s: Seq<char>, i: int) -> int
    decreases s.len() - i,
{
    if 0 <= i < s.len() && is_digit(s[i]) {
        1 + digit_run(s, i + 1)
    } else {
        0
    }
}

/// One where `s[i]` is a `+` or a `-`, else zero.
pub open spec fn sign_len(s: Seq<char>, i: int) -> int {
    if 0 <= i < s.len() && (s[i] == '+' || s[i] == '-') {
        1
    } else {
        0
    }
}

/// `s` equals the lower-case ASCII word `w` up to the case of its letters.
pub open spec fn ascii_ci_equal(s: Seq<char>, w: Seq<char>) -> bool {
    s.len() == w.len() && forall|k: int|
        0 <= k < s.len() ==> (#[trigger] s[k] == w[k] || s[k] as u32 + 32 == w[k] as u32)
}

/// An exponent that runs from `q` to the end: `e` or `E`, an optional sign,
/// one or more digits.
pub open spec fn exponent_from(s: Seq<char>, q: int) -> bool {
    let r = q + 1 + sign_len(s, q + 1);
    0 <= q < s.len() && (s[q] == 'e' || s[q] == 'E') && digit_run(s, r) > 0 && r + digit_run(
        s,
        r,
    ) == s.len()
}

/// The digits before the point, if any.
pub open spec fn int_part(s: Seq<char>, i: int) -> int {
    digit_run(s, i)
}

/// Whether a point follows the integer part.
pub open spec fn has_point(s: Seq<char>, i: int) -> bool {
    let p = i + int_part(s, i);
    0 <= p < s.len() && s[p] == '.'
}

/// The digits after the point, if there is one.
pub open spec fn frac_part(s: Seq<char>, i: int) -> int {
    if has_point(s, i) {
        digit_run(s, i + int_part(s, i) + 1)
    } else {
        0
    }
}

/// Where the mantissa that starts at `i` ends.
pub open spec fn mantissa_end(s: Seq<char>, i: int) -> int {
    if has_point(s, i) {
        i + int_part(s, i) + 1 + frac_part(s, i)
    } else {
        i + int_part(s, i)
    }
}

/// A decimal number from `i` to the end: digits with an optional point,
/// at least one digit on either side of it, then an optional exponent.
pub open spec fn number_from(s: Seq<char>, i: int) -> bool {
    let q = mantissa_end(s, i);
    int_part(s, i) + frac_part(s, i) > 0 && (q == s.len() || exponent_from(s, q))
}

/// What `f64::from_str` accepts: an optional sign, then `inf`,
/// `infinity` or `nan` in any case, or a decimal number.
pub open spec fn float_text(s: Seq<char>) -> bool {
    let i = sign_len(s, 0);
    let rest = s.subrange(i, s.len() as int);
    ascii_ci_equal(rest, seq!['i', 'n', 'f']) || ascii_ci_equal(
        rest,
        seq!['i', 'n', 'f', 'i', 'n', 'i', 't', 'y'],
    ) || ascii_ci_equal(rest, seq!['n', 'a', 'n']) || number_from(s, i)
}

/// The token that a line offers as the mood word, or why it offers none.
pub open spec fn word_token_of(line: Seq<char>) -> Result<Seq<char>, WordError> {
    match single_token(line) {
        None => Err(WordError::NotSingleWord),
        Some(t) => if float_text(t) {
            Err(WordError::Numeric)
        } else {
            Ok(t)
        },
    }
}

/// The mood word that a line gives: its token in lower case.
pub open spec fn word_of(line: Seq<char>) -> Result<Seq<char>, WordError> {
    match word_token_of(line) {
        Ok(t) => Ok(lower_of(t)),
        Err(e) => Err(e),
    }
}

fn is_digit_char(c: char) -> (r: bool)
    ensures
        r == is_digit(c),
{
    '0' <= c && c <= '9'
}

fn digit_run_exec(s: &str, n: usize, i: usize) -> (r: usize)
    requires
        n == s@.len(),
        i <= n,
    ensures
        r as int == digit_run(s@, i as int),
        i + r <= n,
{
    let mut j: usize = i;
    while j < n && is_digit_char(s.get_char(j))
        invariant
            n == s@.len(),
            i <= j <= n,
            digit_run(s@, i as int) == (j - i) + digit_run(s@, j as int),
        decreases n - j,
    {
        j = j + 1;
    }
    j - i
}

fn sign_len_exec(s: &str, n: usize, i: usize) -> (r: usize)
    requires
        n == s@.len(),
        i <= n,
    ensures
        r as int == sign_len(s@, i as int),
{
    if i < n {
        let c = s.get_char(i);
        if c == '+' || c == '-' {
            return 1;
        }
    }
    0
}

fn rest_ci_equal(s: &str, n: usize, i: usize, w: &Vec<char>) -> (r: bool)
    requires
        n == s@.len(),
        i <= n,
    ensures
        r == ascii_ci_equal(s@.subrange(i as int, n as int), w@),
{
    let ghost rest = s@.subrange(i as int, n as int);
    if n - i != w.len() {
        return false;
    }
    let mut k: usize = 0;
    while k < w.len()
        invariant
            n == s@.len(),
            i <= n,
            rest == s@.subrange(i as int, n as int),
            rest.len() == w@.len(),
            k <= w.len(),
            forall|m: int| 0 <= m < k ==> (#[trigger] rest[m] == w@[m] || rest[m] as u32 + 32 == w@[m] as u32),
        decreases w.len() - k,
    {
        let c = s.get_char(i + k);
        let x = w[k];
        if !(c == x || c as u32 + 32 == x as u32) {
            assert(rest[k as int] == c);
            return false;
        }
        k = k + 1;
    }
    true
}

/// Whether a text reads as a floating-point number.
pub fn is_float_text(s: &str) -> (r: bool)
    ensures
        r == float_text(s@),
{
    let n: usize = s.unicode_len();
    let i: usize = sign_len_exec(s, n, 0);
    if rest_ci_equal(s, n, i, &vec!['i', 'n', 'f']) || rest_ci_equal(
        s,
        n,
        i,
        &vec!['i', 'n', 'f', 'i', 'n', 'i', 't', 'y'],
    ) || rest_ci_equal(s, n, i, &vec!['n', 'a', 'n']) {
        return true;
    }
    let a: usize = digit_run_exec(s, n, i);
    let p: usize = i + a;
    let point: bool = p < n && s.get_char(p) == '.';
    let f: usize = if point {
        digit_run_exec(s, n, p + 1)
    } else {
        0
    };
    let q: usize = if point {
        p + 1 + f
    } else {
        p
    };
    if a + f == 0 {
        return false;
    }
    if q == n {
        return true;
    }
    let c = s.get_char(q);
    if !(c == 'e' || c == 'E') {
        return false;
    }
    if q + 1 > n {
        return false;
    }
    let r: usize = q + 1 + sign_len_exec(s, n, q + 1);
    if r > n {
        return false;
    }
    let e: usize = digit_run_exec(s, n, r);
    e > 0 && r + e == n
}

/// The token that a line offers as the mood word, or why it offers none.
pub fn word_token(line: &str) -> (r: Result<&str, WordError>)
    ensures
        match (r, word_token_of(line@)) {
            (Ok(w), Ok(t)) => w@ == t,
            (Err(e), Err(f)) => e == f,
            _ => false,
        },
{
    let (a, b) = trim_bounds(line);
    let ghost t = line@.subrange(a as int, b as int);
    if a == b {
        return Err(WordError::NotSingleWord);
    }
    let mut i: usize = a;
    while i < b
        invariant
            a <= i <= b <= line@.len(),
            t == line@.subrange(a as int, b as int),
            t == trim(line@),
            forall|k: int| 0 <= k < i - a ==> !is_white(#[trigger] t[k]),
        decreases b - i,
    {
        if is_white_char(line.get_char(i)) {
            assert(is_white(t[i - a]));
            assert(single_token(line@) is None);
            return Err(WordError::NotSingleWord);
        }
        i = i + 1;
    }
    let token = line.substring_char(a, b);
    if is_float_text(token) {
        Err(WordError::Numeric)
    } else {
        Ok(token)
    }
}

/// Reads the mood word from one line of input.
pub fn parse_word(line: &str) -> (r: Result<String, WordError>)
    ensures
        match (r, word_of(line@)) {
            (Ok(w), Ok(x)) => w@ == x,
            (Err(e), Err(f)) => e == f,
            _ => false,
        },
        r is Ok ==> r->Ok_0@.len() > 0,
{
    match word_token(line) {
        Ok(token) => Ok(lowercase(token)),
        Err(e) => Err(e),
    }
}

/// A token, a text with no whitespace in it, is taken as the mood word
/// exactly when it is not empty and does not read as a floating-point
/// number; the word kept is then its lower-case form.
pub proof fn lemma_word_accepts_token(t: Seq<char>)
    requires
        forall|i: int| 0 <= i < t.len() ==> !is_white(#[trigger] t[i]),
    ensures
        (word_of(t) is Ok) == (t.len() > 0 && !float_text(t)),
        word_of(t) is Ok ==> word_of(t)->Ok_0 == lower_of(t),
        t.len() == 0 ==> word_of(t) == Err::<Seq<char>, WordError>(WordError::NotSingleWord),
        t.len() > 0 && float_text(t) ==> word_of(t) == Err::<Seq<char>, WordError>(
            WordError::Numeric,
        ),
{
    if t.len() > 0 {
        assert(!is_white(t[0]));
        assert(!is_white(t[t.len() - 1]));
    }
    lemma_trim_unchanged(t);
}

/// Whitespace around a line's one token does not change the word taken.
pub proof fn lemma_word_ignores_surrounding_space(line: Seq<char>)
    ensures
        word_of(line) == word_of(trim(line)),
{
    lemma_trim_ends(line);
    lemma_trim_unchanged(trim(line));
}

} // verus!
