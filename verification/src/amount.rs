//! Amounts as text.
//!
//! The exchange states prices, volumes and balances as text in the notation
//! of floating-point literals.  This module says which texts are such
//! literals and recognises them.

use crate::text::{chars_of, decimal_digits, decimal_text, digit_char};
use vstd::prelude::*;

verus! {

/// Whether `c` is one of the ten decimal digits.
pub open spec fn is_digit(c: char) -> bool {
    '0' <= c && c <= '9'
}

/// Whether `c` is a plus or a minus sign.
pub open spec fn is_sign(c: char) -> bool {
    c == '+' || c == '-'
}

/// The lowercase form of an ASCII capital; any other character is itself.
pub open spec fn ascii_lower(c: char) -> char {
    if 'A' <= c && c <= 'Z' {
        ((c as u8) + 32) as char
    } else {
        c
    }
}

/// How many digits `s` begins with.
pub open spec fn digits_len(s: Seq<char>) -> nat
    decreases s.len(),
{
    if s.len() > 0 && is_digit(s[0]) {
        1 + digits_len(s.drop_first())
    } else {
        0
    }
}

/// `s` without the sign that it may begin with.
pub open spec fn skip_sign(s: Seq<char>) -> Seq<char> {
    if s.len() > 0 && is_sign(s[0]) {
        s.drop_first()
    } else {
        s
    }
}

/// Whether `s` is an exponent: `e` or `E`, an optional sign, and at least
/// one digit, with nothing behind.
pub open spec fn is_exponent(s: Seq<char>) -> bool {
    &&& s.len() > 0
    &&& ascii_lower(s[0]) == 'e'
    &&& skip_sign(s.drop_first()).len() > 0
    &&& digits_len(skip_sign(s.drop_first())) == skip_sign(s.drop_first()).len()
}

/// Whether `s` is an unsigned number: digits, optionally with a point among
/// them or at either end, and optionally an exponent.  A point alone is no
/// number.
pub open spec fn is_number(s: Seq<char>) -> bool {
    let whole = digits_len(s) as int;
    let rest = s.skip(whole);
    if rest.len() > 0 && rest[0] == '.' {
        let fraction = digits_len(rest.drop_first()) as int;
        let tail = rest.drop_first().skip(fraction);
        whole + fraction > 0 && (tail.len() == 0 || is_exponent(tail))
    } else {
        whole > 0 && (rest.len() == 0 || is_exponent(rest))
    }
}

/// Whether `s` is `word` but for the case of its letters.
pub open spec fn is_word(s: Seq<char>, word: Seq<char>) -> bool {
    s.len() == word.len() && forall|i: int| 0 <= i < s.len() ==> ascii_lower(s[i]) == word[i]
}

/// Whether `s` names a value that is no number: an infinity or a NaN.
pub open spec fn is_special(s: Seq<char>) -> bool {
    ||| is_word(s, seq!['i', 'n', 'f'])
    ||| is_word(s, seq!['i', 'n', 'f', 'i', 'n', 'i', 't', 'y'])
    ||| is_word(s, seq!['n', 'a', 'n'])
}

/// Whether `s` states an amount: an optional sign before a number or one of
/// the words `inf`, `infinity` and `nan`.  Blanks are not allowed anywhere.
pub open spec fn is_amount(s: Seq<char>) -> bool {
    is_special(skip_sign(s)) || is_number(skip_sign(s))
}

/// A text of digits stays one when a digit is added at its end.
pub proof fn lemma_digits_push(s: Seq<char>, c: char)
    requires
        digits_len(s) == s.len(),
        is_digit(c),
    ensures
        digits_len(s.push(c)) == s.len() + 1,
    decreases s.len(),
{
    let longer = s.push(c);
    if s.len() > 0 {
        assert(longer.drop_first() =~= s.drop_first().push(c));
        lemma_digits_push(s.drop_first(), c);
        assert(longer[0] == s[0]);
        assert(digits_len(longer) == 1 + digits_len(longer.drop_first()));
    } else {
        assert(longer.drop_first() =~= Seq::<char>::empty());
        assert(longer[0] == c);
        assert(digits_len(longer) == 1 + digits_len(longer.drop_first()));
    }
}

/// The character of each digit is a digit.
pub proof fn lemma_digit_char(d: int)
    requires
        0 <= d < 10,
    ensures
        is_digit(digit_char(d)),
{
}

/// The decimal notation of a natural number consists of digits.
pub proof fn lemma_decimal_digits(n: nat)
    ensures
        decimal_digits(n).len() > 0,
        digits_len(decimal_digits(n)) == decimal_digits(n).len(),
    decreases n,
{
    if n < 10 {
        let one = seq![digit_char(n as int)];
        lemma_digit_char(n as int);
        assert(one.drop_first() =~= Seq::<char>::empty());
        assert(digits_len(one) == 1 + digits_len(one.drop_first()));
    } else {
        lemma_decimal_digits(n / 10);
        lemma_digit_char((n % 10) as int);
        lemma_digits_push(decimal_digits(n / 10), digit_char((n % 10) as int));
    }
}

/// Every integer written in decimal states an amount.
pub proof fn lemma_decimal_is_amount(i: int)
    ensures
        is_amount(decimal_text(i)),
{
    let magnitude = if i < 0 {
        (-i) as nat
    } else {
        i as nat
    };
    let digits = decimal_digits(magnitude);
    lemma_decimal_digits(magnitude);
    if i < 0 {
        assert(decimal_text(i).drop_first() =~= digits);
    }
    assert(skip_sign(decimal_text(i)) == digits);
    assert(digits.skip(digits.len() as int) =~= Seq::<char>::empty());
}

fn digit_at(chars: &Vec<char>, at: usize) -> (yes: bool)
    ensures
        yes == (at < chars.len() && is_digit(chars[at as int])),
{
    at < chars.len() && '0' <= chars[at] && chars[at] <= '9'
}

fn sign_at(chars: &Vec<char>, at: usize) -> (yes: bool)
    ensures
        yes == (at < chars.len() && is_sign(chars[at as int])),
{
    at < chars.len() && (chars[at] == '+' || chars[at] == '-')
}

fn lower(c: char) -> (l: char)
    ensures
        l == ascii_lower(c),
{
    if 'A' <= c && c <= 'Z' {
        ((c as u8) + 32) as char
    } else {
        c
    }
}

/// Where the digits that begin at `from` end.
fn digits_end(chars: &Vec<char>, from: usize) -> (end: usize)
    requires
        from <= chars.len(),
    ensures
        from <= end <= chars.len(),
        end - from == digits_len(chars@.skip(from as int)),
{
    let mut at = from;
    while digit_at(chars, at)
        invariant
            from <= at <= chars.len(),
            digits_len(chars@.skip(from as int)) == (at - from) + digits_len(
                chars@.skip(at as int),
            ),
        decreases chars.len() - at,
    {
        assert(chars@.skip(at as int).drop_first() =~= chars@.skip(at as int + 1));
        at = at + 1;
    }
    at
}

/// Whether an exponent begins at `from` and ends the text.
fn exponent_at(chars: &Vec<char>, from: usize) -> (yes: bool)
    requires
        from <= chars.len(),
    ensures
        yes == is_exponent(chars@.skip(from as int)),
{
    if from < chars.len() && lower(chars[from]) == 'e' {
        let start = if sign_at(chars, from + 1) {
            from + 2
        } else {
            from + 1
        };
        let end = digits_end(chars, start);
        proof {
            let s = chars@.skip(from as int);
            assert(s.drop_first() =~= chars@.skip(from as int + 1));
            if start == from + 2 {
                assert(chars@.skip(from as int + 1).drop_first() =~= chars@.skip(start as int));
            }
            assert(skip_sign(s.drop_first()) =~= chars@.skip(start as int));
        }
        start < chars.len() && end == chars.len()
    } else {
        false
    }
}

/// Whether the text from `from` on is an unsigned number.
fn number_at(chars: &Vec<char>, from: usize) -> (yes: bool)
    requires
        from <= chars.len(),
    ensures
        yes == is_number(chars@.skip(from as int)),
{
    let point = digits_end(chars, from);
    proof {
        let s = chars@.skip(from as int);
        assert(s.skip(point - from) =~= chars@.skip(point as int));
    }
    if point < chars.len() && chars[point] == '.' {
        let end = digits_end(chars, point + 1);
        proof {
            let rest = chars@.skip(point as int);
            assert(rest.drop_first() =~= chars@.skip(point as int + 1));
            assert(rest.drop_first().skip(end - point - 1) =~= chars@.skip(end as int));
        }
        end - 1 > from && (end == chars.len() || exponent_at(chars, end))
    } else {
        point > from && (point == chars.len() || exponent_at(chars, point))
    }
}

/// Whether the text from `from` on is `word` but for the case of its letters.
fn word_at<const N: usize>(chars: &Vec<char>, from: usize, word: &[char; N]) -> (yes: bool)
    requires
        from <= chars.len(),
    ensures
        yes == is_word(chars@.skip(from as int), word@),
{
    if chars.len() - from != N {
        return false;
    }
    let ghost s = chars@.skip(from as int);
    let mut k: usize = 0;
    while k < N
        invariant
            k <= N,
            from + N == chars.len(),
            s == chars@.skip(from as int),
            forall|i: int| 0 <= i < k ==> ascii_lower(s[i]) == word@[i],
        decreases N - k,
    {
        if lower(chars[from + k]) != word[k] {
            assert(ascii_lower(s[k as int]) != word@[k as int]);
            return false;
        }
        k = k + 1;
    }
    true
}

/// Whether `text` states an amount.
pub fn is_amount_text(text: &str) -> (yes: bool)
    ensures
        yes == is_amount(text@),
{
    let chars = chars_of(text);
    let from: usize = if sign_at(&chars, 0) {
        1
    } else {
        0
    };
    proof {
        assert(chars@.skip(0) =~= chars@);
        assert(skip_sign(text@) =~= chars@.skip(from as int));
    }
    let inf: [char; 3] = ['i', 'n', 'f'];
    let infinity: [char; 8] = ['i', 'n', 'f', 'i', 'n', 'i', 't', 'y'];
    let nan: [char; 3] = ['n', 'a', 'n'];
    assert(inf@ =~= seq!['i', 'n', 'f']);
    assert(infinity@ =~= seq!['i', 'n', 'f', 'i', 'n', 'i', 't', 'y']);
    assert(nan@ =~= seq!['n', 'a', 'n']);
    word_at(&chars, from, &inf) || word_at(&chars, from, &infinity) || word_at(&chars, from, &nan)
        || number_at(&chars, from)
}

} // verus!
