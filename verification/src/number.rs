//! Decimal numbers and flags written as text.

use vstd::prelude::*;
use crate::text::chars_of;

verus! {

/// The decimal digits, `0` to `9`.
pub open spec fn is_digit(c: char) -> bool {
    '0' <= c <= '9'
}

/// The value of a decimal digit; 0 for any other character.
pub open spec fn digit_value(c: char) -> nat {
    if is_digit(c) {
        (c as u32 - '0' as u32) as nat
    } else {
        0
    }
}

/// Whether `s` holds decimal digits only.
pub open spec fn all_digits(s: Seq<char>) -> bool {
    forall|i: int| 0 <= i < s.len() ==> is_digit(#[trigger] s[i])
}

/// The number that the digits of `s` write in base ten; 0 for no digits.
pub open spec fn decimal_value(s: Seq<char>) -> nat
    decreases s.len(),
{
    if s.len() == 0 {
        0
    } else {
        decimal_value(s.drop_last()) * 10 + digit_value(s.last())
    }
}

/// Ten to the power of `n`.
pub open spec fn pow10(n: nat) -> nat
    decreases n,
{
    if n == 0 {
        1
    } else {
        10 * pow10((n - 1) as nat)
    }
}

/// The character of the decimal digit `d`.
pub open spec fn digit_char(d: nat) -> char {
    (d + 48) as u8 as char
}

/// `n` written in decimal, without leading zeros.
pub open spec fn decimal_of(n: nat) -> Seq<char>
    decreases n,
{
    if n < 10 {
        seq![digit_char(n)]
    } else {
        decimal_of(n / 10).push(digit_char(n % 10))
    }
}

/// `i` written in decimal, with a `-` in front where it is negative.
pub open spec fn integer_text(i: int) -> Seq<char> {
    if i < 0 {
        seq!['-'] + decimal_of((-i) as nat)
    } else {
        decimal_of(i as nat)
    }
}

/// `n` written in decimal with at least two digits: a number below ten gets
/// a `0` in front.
pub open spec fn two_digits(n: nat) -> Seq<char> {
    if n < 10 {
        seq!['0'] + decimal_of(n)
    } else {
        decimal_of(n)
    }
}

/// Whether `s` starts with a sign, `+` or `-`.
pub open spec fn has_sign(s: Seq<char>) -> bool {
    s.len() > 0 && (s[0] == '+' || s[0] == '-')
}

/// Whether `s` starts with `-`.
pub open spec fn is_negative(s: Seq<char>) -> bool {
    s.len() > 0 && s[0] == '-'
}

/// What follows the sign of `s`; all of `s` where it has no sign.
pub open spec fn unsigned_part(s: Seq<char>) -> Seq<char> {
    if has_sign(s) {
        s.drop_first()
    } else {
        s
    }
}

/// `magnitude`, or its negative.
pub open spec fn with_sign(negative: bool, magnitude: int) -> int {
    if negative {
        -magnitude
    } else {
        magnitude
    }
}

/// The 32-bit integer that `s` writes: an optional sign, then at least one
/// decimal digit and nothing else, with a value in the range of `i32`.
pub open spec fn integer_of(s: Seq<char>) -> Option<i32> {
    let digits = unsigned_part(s);
    let value = with_sign(is_negative(s), decimal_value(digits) as int);
    if digits.len() > 0 && all_digits(digits) && i32::MIN <= value <= i32::MAX {
        Some(value as i32)
    } else {
        None
    }
}

/// The flag that `s` writes: `true` or `false`, spelled so.
pub open spec fn flag_of(s: Seq<char>) -> Option<bool> {
    if s == "true"@ {
        Some(true)
    } else if s == "false"@ {
        Some(false)
    } else {
        None
    }
}

/// Every prefix of a digit string writes a number no larger than the whole.
pub proof fn lemma_decimal_prefix(s: Seq<char>, k: int)
    requires
        0 <= k <= s.len(),
    ensures
        decimal_value(s.take(k)) <= decimal_value(s),
    decreases s.len(),
{
    if k == s.len() {
        assert(s.take(k) =~= s);
    } else {
        lemma_decimal_prefix(s.drop_last(), k);
        assert(s.drop_last().take(k) =~= s.take(k));
    }
}

/// A digit put in front of `s` counts `10^len(s)` times its value.
pub proof fn lemma_decimal_front(c: char, s: Seq<char>)
    ensures
        decimal_value(seq![c] + s) == digit_value(c) * pow10(s.len()) + decimal_value(s),
    decreases s.len(),
{
    let t = seq![c] + s;
    let d = digit_value(c) as int;
    if s.len() == 0 {
        assert(t.drop_last() =~= Seq::<char>::empty());
        assert(decimal_value(Seq::<char>::empty()) == 0);
        assert(t.last() == c);
        assert(decimal_value(t) == d);
        assert(d * 1 == d);
    } else {
        lemma_decimal_front(c, s.drop_last());
        assert(t.drop_last() =~= seq![c] + s.drop_last());
        assert(t.last() == s.last());
        let p = pow10((s.len() - 1) as nat) as int;
        let rest = decimal_value(s.drop_last()) as int;
        assert(decimal_value(t.drop_last()) == d * p + rest);
        assert(pow10(s.len()) == 10 * p);
        assert((d * p + rest) * 10 == d * (10 * p) + rest * 10) by (nonlinear_arith);
    }
}

/// Whether `c` is a decimal digit.
pub fn is_digit_char(c: char) -> (b: bool)
    ensures
        b == is_digit(c),
{
    '0' <= c && c <= '9'
}

/// Whether `chars[from..to]` holds decimal digits only.
pub fn digits_only(chars: &Vec<char>, from: usize, to: usize) -> (b: bool)
    requires
        from <= to <= chars.len(),
    ensures
        b == all_digits(chars@.subrange(from as int, to as int)),
{
    let mut i: usize = from;
    while i < to
        invariant
            from <= i <= to <= chars.len(),
            all_digits(chars@.subrange(from as int, i as int)),
        decreases to - i,
    {
        if !is_digit_char(chars[i]) {
            assert(!is_digit(chars@.subrange(from as int, to as int)[i - from]));
            return false;
        }
        i += 1;
    }
    true
}

/// The number that the digits `chars[from..to]` write, where it is at most
/// `limit`.
pub fn bounded_decimal(chars: &Vec<char>, from: usize, to: usize, limit: u64) -> (r: Option<u64>)
    requires
        from <= to <= chars.len(),
        all_digits(chars@.subrange(from as int, to as int)),
        limit <= 0x0fff_ffff_ffff_ffff,
    ensures
        match r {
            Some(v) => v == decimal_value(chars@.subrange(from as int, to as int)) && v <= limit,
            None => decimal_value(chars@.subrange(from as int, to as int)) > limit,
        },
{
    let ghost digits = chars@.subrange(from as int, to as int);
    let mut value: u64 = 0;
    let mut i: usize = from;
    assert(digits.take(0) =~= Seq::<char>::empty());
    while i < to
        invariant
            from <= i <= to <= chars.len(),
            digits == chars@.subrange(from as int, to as int),
            all_digits(digits),
            value == decimal_value(digits.take(i - from)),
            value <= limit <= 0x0fff_ffff_ffff_ffff,
        decreases to - i,
    {
        let c = chars[i];
        assert(c == digits[i - from]);
        let d: u64 = (c as u32 - '0' as u32) as u64;
        assert(digits.take(i - from + 1).drop_last() =~= digits.take(i - from));
        value = value * 10 + d;
        i += 1;
        if value > limit {
            proof {
                lemma_decimal_prefix(digits, i - from);
            }
            return None;
        }
    }
    assert(digits.take(to - from) =~= digits);
    Some(value)
}

/// Reads a 32-bit integer: an optional sign and decimal digits.
pub fn parse_integer(text: &str) -> (r: Option<i32>)
    ensures
        r == integer_of(text@),
{
    let chars = chars_of(text);
    let n = chars.len();
    let negative = n > 0 && chars[0] == '-';
    let from: usize = if n > 0 && (chars[0] == '+' || chars[0] == '-') {
        1
    } else {
        0
    };
    assert(chars@.subrange(from as int, n as int) =~= unsigned_part(text@));
    if from == n || !digits_only(&chars, from, n) {
        return None;
    }
    match bounded_decimal(&chars, from, n, 0x8000_0000) {
        Some(magnitude) => {
            if negative {
                Some((-(magnitude as i64)) as i32)
            } else if magnitude <= 0x7fff_ffff {
                Some(magnitude as i32)
            } else {
                None
            }
        },
        None => None,
    }
}

/// Reads a flag: `true` or `false`.
pub fn parse_flag(text: &str) -> (r: Option<bool>)
    ensures
        r == flag_of(text@),
{
    if *text == *"true" {
        Some(true)
    } else if *text == *"false" {
        Some(false)
    } else {
        None
    }
}

/// Appends `n`, written in decimal, to `text`.
pub fn push_decimal(text: &mut String, n: u64)
    ensures
        final(text)@ == old(text)@ + decimal_of(n as nat),
    decreases n,
{
    if n >= 10 {
        push_decimal(text, n / 10);
    }
    text.push(((n % 10) as u8 + 48) as char);
    assert(text@ =~= old(text)@ + decimal_of(n as nat));
}

/// Appends `i`, written in decimal with its sign where it is negative, to
/// `text`.
pub fn push_integer(text: &mut String, i: i32)
    ensures
        final(text)@ == old(text)@ + integer_text(i as int),
{
    if i < 0 {
        text.push('-');
        push_decimal(text, (-(i as i64)) as u64);
        assert(text@ =~= old(text)@ + integer_text(i as int));
    } else {
        push_decimal(text, i as u64);
    }
}

/// Appends `n`, written in decimal with at least two digits, to `text`.
pub fn push_two_digits(text: &mut String, n: u32)
    ensures
        final(text)@ == old(text)@ + two_digits(n as nat),
{
    if n < 10 {
        text.push('0');
    }
    push_decimal(text, n as u64);
    assert(text@ =~= old(text)@ + two_digits(n as nat));
}

} // verus!
