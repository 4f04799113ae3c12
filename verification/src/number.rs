//! Decimal numbers as text: how an integer is written, which texts are
//! integers, and which texts are floating-point literals.

use crate::text::{all_of, leading, trim_start_matches, CharClass};
use vstd::prelude::*;
use vstd::slice::slice_subrange;

verus! {

/// The character that stands for the digit `d`, for `d` from 0 to 9.
pub open spec fn digit_char(d: int) -> char {
    ((0x30 + d) as u8) as char
}

/// The digit that `c` stands for, for `c` from `0` to `9`.
pub open spec fn digit_of(c: char) -> int {
    c as u32 - 0x30
}

/// `n` in decimal digits, without leading zeros.
pub open spec fn decimal(n: nat) -> Seq<char>
    decreases n,
{
    if n < 10 {
        seq![digit_char(n as int)]
    } else {
        decimal(n / 10).push(digit_char((n % 10) as int))
    }
}

/// `v` in decimal digits, with a minus sign in front where it is negative.
pub open spec fn signed_decimal(v: int) -> Seq<char> {
    if v < 0 {
        seq!['-'] + decimal((-v) as nat)
    } else {
        decimal(v as nat)
    }
}

/// The number that the digits of `s` write in base ten.
pub open spec fn digits_value(s: Seq<char>) -> int
    decreases s.len(),
{
    if s.len() == 0 {
        0
    } else {
        10 * digits_value(s.drop_last()) + digit_of(s.last())
    }
}

/// `s` without the sign, `+` or `-`, that it may begin with.
pub open spec fn unsigned(s: Seq<char>) -> Seq<char> {
    if s.len() > 0 && (s[0] == '+' || s[0] == '-') {
        s.drop_first()
    } else {
        s
    }
}

/// The integer that `s` writes: an optional sign and then one or more digits,
/// nothing else, with a value that a signed 64-bit integer holds.
pub open spec fn integer_of(s: Seq<char>) -> Option<i64> {
    let digits = unsigned(s);
    let magnitude = digits_value(digits);
    let value = if s.len() > 0 && s[0] == '-' {
        -magnitude
    } else {
        magnitude
    };
    if digits.len() > 0 && all_of(digits, CharClass::Digit) && i64::MIN <= value <= i64::MAX {
        Some(value as i64)
    } else {
        None
    }
}

/// Whether `c` is the lower-case ASCII letter `letter` or its upper-case form.
pub open spec fn is_letter(c: char, letter: char) -> bool {
    c == letter || c as u32 + 0x20 == letter as u32
}

/// Whether `s` is `word` but for the case of its letters, where `word` is
/// written in lower-case ASCII letters.
pub open spec fn spells(s: Seq<char>, word: Seq<char>) -> bool {
    &&& s.len() == word.len()
    &&& forall|i: int| 0 <= i < s.len() ==> is_letter(#[trigger] s[i], word[i])
}

/// Whether `s` is an exponent: an optional sign and then one or more digits.
pub open spec fn is_exponent(s: Seq<char>) -> bool {
    let digits = unsigned(s);
    digits.len() > 0 && all_of(digits, CharClass::Digit)
}

/// Whether `s` is a decimal number: digits, with an optional point among, before
/// or after them, and at least one digit; then, optionally, `e` or `E` and an
/// exponent.
pub open spec fn is_decimal_number(s: Seq<char>) -> bool {
    let whole = leading(s, CharClass::Digit);
    let rest = s.skip(whole as int);
    let after_point = if rest.len() > 0 && rest[0] == '.' {
        rest.drop_first()
    } else {
        rest
    };
    let fraction = leading(after_point, CharClass::Digit);
    let tail = after_point.skip(fraction as int);
    &&& whole + fraction > 0
    &&& tail.len() > 0 ==> (tail[0] == 'e' || tail[0] == 'E') && is_exponent(tail.drop_first())
}

/// Whether `s` is a floating-point literal: an optional sign, and then a
/// decimal number or one of the words `inf`, `infinity` and `nan` in any case.
pub open spec fn is_float_literal(s: Seq<char>) -> bool {
    let body = unsigned(s);
    ||| is_decimal_number(body)
    ||| spells(body, seq!['i', 'n', 'f'])
    ||| spells(body, seq!['i', 'n', 'f', 'i', 'n', 'i', 't', 'y'])
    ||| spells(body, seq!['n', 'a', 'n'])
}

/// Appending digits never makes the number that they write smaller.
proof fn lemma_digits_value_grows(s: Seq<char>, n: int)
    requires
        0 <= n <= s.len(),
        all_of(s, CharClass::Digit),
    ensures
        0 <= digits_value(s.take(n)) <= digits_value(s),
    decreases s.len(),
{
    if s.len() > 0 {
        if n == s.len() {
            assert(s.take(n) == s);
            lemma_digits_value_grows(s.drop_last(), n - 1);
        } else {
            lemma_digits_value_grows(s.drop_last(), n);
            assert(s.drop_last().take(n) == s.take(n));
        }
    }
}

/// The decimal digits of `n`.
pub fn decimal_chars(n: u64) -> (chars: Vec<char>)
    ensures
        chars@ == decimal(n as nat),
    decreases n,
{
    if n < 10 {
        let c: char = (0x30u8 + (n as u8)) as char;
        let mut chars: Vec<char> = Vec::new();
        chars.push(c);
        chars
    } else {
        let mut chars = decimal_chars(n / 10);
        let c: char = (0x30u8 + ((n % 10) as u8)) as char;
        chars.push(c);
        chars
    }
}

/// The decimal digits of `v`, after a minus sign where `v` is negative.
pub fn signed_decimal_chars(v: i64) -> (chars: Vec<char>)
    ensures
        chars@ == signed_decimal(v as int),
{
    if v < 0 {
        let magnitude: u64 = (0 - (v as i128)) as u64;
        let mut chars: Vec<char> = Vec::new();
        chars.push('-');
        let mut digits = decimal_chars(magnitude);
        chars.append(&mut digits);
        chars
    } else {
        decimal_chars(v as u64)
    }
}

/// Removes the sign that `s` may begin with.
pub fn strip_sign<'a>(s: &'a [char]) -> (rest: &'a [char])
    ensures
        rest@ == unsigned(s@),
{
    if s.len() > 0 && (s[0] == '+' || s[0] == '-') {
        slice_subrange(s, 1, s.len())
    } else {
        s
    }
}

/// Whether `s` holds digits only.
pub fn only_digits(s: &[char]) -> (b: bool)
    ensures
        b == all_of(s@, CharClass::Digit),
{
    let rest = trim_start_matches(s, CharClass::Digit);
    proof {
        crate::text::lemma_leading_all(s@, CharClass::Digit);
    }
    rest.len() == 0
}

/// Reads `s` as a signed 64-bit integer in decimal.
pub fn parse_integer(s: &[char]) -> (value: Option<i64>)
    ensures
        value == integer_of(s@),
{
    let negative = s.len() > 0 && s[0] == '-';
    let digits = strip_sign(s);
    if digits.len() == 0 || !only_digits(digits) {
        return None;
    }
    let limit: u128 = if negative {
        0x8000_0000_0000_0000
    } else {
        0x7fff_ffff_ffff_ffff
    };
    let mut magnitude: u128 = 0;
    let mut i: usize = 0;
    while i < digits.len()
        invariant
            i <= digits.len(),
            all_of(digits@, CharClass::Digit),
            digits@ == unsigned(s@),
            negative == (s@.len() > 0 && s@[0] == '-'),
            magnitude == digits_value(digits@.take(i as int)),
            magnitude <= limit,
            limit == if negative {
                0x8000_0000_0000_0000u128
            } else {
                0x7fff_ffff_ffff_ffffu128
            },
        decreases digits.len() - i,
    {
        let d: u128 = (code_point(digits[i]) - 0x30) as u128;
        assert(digits@.take(i + 1).drop_last() == digits@.take(i as int));
        magnitude = magnitude * 10 + d;
        if magnitude > limit {
            proof {
                lemma_digits_value_grows(digits@, i + 1);
            }
            return None;
        }
        i = i + 1;
    }
    assert(digits@.take(digits.len() as int) == digits@);
    if negative {
        Some((0 - (magnitude as i128)) as i64)
    } else {
        Some(magnitude as i64)
    }
}

/// The number of the character `c` in Unicode.
fn code_point(c: char) -> (n: u32)
    ensures
        n == c as u32,
        n <= 0x10FFFF,
{
    c as u32
}

/// Whether `s` is `word` but for the case of its letters.
fn spells_word(s: &[char], word: &[char]) -> (b: bool)
    ensures
        b == spells(s@, word@),
{
    if s.len() != word.len() {
        return false;
    }
    let mut i: usize = 0;
    while i < s.len()
        invariant
            i <= s.len(),
            s.len() == word.len(),
            forall|k: int| 0 <= k < i ==> is_letter(#[trigger] s@[k], word@[k]),
        decreases s.len() - i,
    {
        let c: u32 = code_point(s[i]);
        let w: u32 = code_point(word[i]);
        if !(s[i] == word[i] || c + 0x20 == w) {
            return false;
        }
        i = i + 1;
    }
    true
}

/// Whether `s` is an optional sign and then one or more digits.
fn exponent_ok(s: &[char]) -> (b: bool)
    ensures
        b == is_exponent(s@),
{
    let digits = strip_sign(s);
    digits.len() > 0 && only_digits(digits)
}

/// Whether `s` is a decimal number with an optional point and exponent.
fn decimal_number_ok(s: &[char]) -> (b: bool)
    ensures
        b == is_decimal_number(s@),
{
    let rest = trim_start_matches(s, CharClass::Digit);
    proof {
        crate::text::lemma_leading_all(s@, CharClass::Digit);
    }
    let whole: usize = s.len() - rest.len();
    let after_point = if rest.len() > 0 && rest[0] == '.' {
        slice_subrange(rest, 1, rest.len())
    } else {
        rest
    };
    let tail = trim_start_matches(after_point, CharClass::Digit);
    proof {
        crate::text::lemma_leading_all(after_point@, CharClass::Digit);
    }
    let fraction: usize = after_point.len() - tail.len();
    if whole == 0 && fraction == 0 {
        return false;
    }
    if tail.len() == 0 {
        return true;
    }
    (tail[0] == 'e' || tail[0] == 'E') && exponent_ok(slice_subrange(tail, 1, tail.len()))
}

/// Whether `s` is a floating-point literal.
pub fn float_literal_ok(s: &[char]) -> (b: bool)
    ensures
        b == is_float_literal(s@),
{
    let body = strip_sign(s);
    if decimal_number_ok(body) {
        return true;
    }
    let inf: [char; 3] = ['i', 'n', 'f'];
    let infinity: [char; 8] = ['i', 'n', 'f', 'i', 'n', 'i', 't', 'y'];
    let nan: [char; 3] = ['n', 'a', 'n'];
    spells_word(body, inf.as_slice()) || spells_word(body, infinity.as_slice()) || spells_word(
        body,
        nan.as_slice(),
    )
}

} // verus!
