//! Offsets from UTC written as text.
//!
//! An offset is written in hours, with an optional sign and an optional
//! decimal fraction (`9`, `-3.5`, `+5.75`), and is held in whole seconds east
//! of UTC.

use vstd::prelude::*;
use crate::number::{
    all_digits, bounded_decimal, decimal_value, digit_value, digits_only, is_digit, is_negative,
    lemma_decimal_front, pow10, unsigned_part, with_sign,
};
use crate::text::{chars_of, find_char, first_index, lemma_first_index};

verus! {

/// The seconds of an hour.
pub const SECONDS_PER_HOUR: u64 = 3600;

/// The digits before the decimal point of `s`.
pub open spec fn whole_part(s: Seq<char>) -> Seq<char> {
    s.take(first_index(s, '.') as int)
}

/// The digits after the decimal point of `s`; none where `s` has no point.
pub open spec fn fraction_part(s: Seq<char>) -> Seq<char> {
    if first_index(s, '.') < s.len() {
        s.skip(first_index(s, '.') as int + 1)
    } else {
        Seq::empty()
    }
}

/// The whole seconds in the fraction of an hour that the digits `f` write
/// after a decimal point: `0.f` hours, rounded down.
pub open spec fn fraction_seconds(f: Seq<char>) -> nat {
    ((3600 * decimal_value(f)) / pow10(f.len())) as nat
}

/// The seconds that the unsigned text `s` writes in hours.
pub open spec fn hours_as_seconds(s: Seq<char>) -> nat {
    decimal_value(whole_part(s)) * 3600 + fraction_seconds(fraction_part(s))
}

/// Whether the unsigned text `s` is a decimal number: digits, at most one
/// decimal point among them, and at least one digit.
pub open spec fn is_decimal(s: Seq<char>) -> bool {
    &&& all_digits(whole_part(s))
    &&& all_digits(fraction_part(s))
    &&& whole_part(s).len() + fraction_part(s).len() > 0
}

/// The offset in seconds that `s` writes in hours: an optional sign and a
/// decimal number, rounded towards zero to whole seconds, where that fits in
/// an `i32`.
pub open spec fn offset_of_text(s: Seq<char>) -> Option<i32> {
    let seconds = with_sign(is_negative(s), hours_as_seconds(unsigned_part(s)) as int);
    if is_decimal(unsigned_part(s)) && i32::MIN <= seconds <= i32::MAX {
        Some(seconds as i32)
    } else {
        None
    }
}

/// A power of ten is positive.
pub proof fn lemma_pow10_positive(n: nat)
    ensures
        pow10(n) > 0,
    decreases n,
{
    if n > 0 {
        lemma_pow10_positive((n - 1) as nat);
    }
}

/// One step of the long multiplication by 3600, from the last digit of the
/// fraction to the first: with `carry` the seconds in the digits `rest`, the
/// seconds in `c` followed by `rest` are `(3600 * c + carry) / 10`.
pub proof fn lemma_fraction_step(c: char, rest: Seq<char>)
    requires
        is_digit(c),
    ensures
        fraction_seconds(seq![c] + rest) == (3600 * digit_value(c) + fraction_seconds(rest)) / 10,
{
    let d = digit_value(c) as int;
    let p = pow10(rest.len()) as int;
    let v = decimal_value(rest) as int;
    lemma_pow10_positive(rest.len());
    lemma_decimal_front(c, rest);
    assert(pow10((rest.len() + 1) as nat) == 10 * p);
    assert((seq![c] + rest).len() == rest.len() + 1);
    let x = 3600 * (d * p + v);
    assert(x == 3600 * v + (3600 * d) * p) by (nonlinear_arith)
        requires
            x == 3600 * (d * p + v),
    ;
    assert(x / (p * 10) == (x / p) / 10) by {
        vstd::arithmetic::div_mod::lemma_div_denominator(x, p, 10);
    }
    assert(x / p == (3600 * v) / p + 3600 * d) by {
        vstd::arithmetic::div_mod::lemma_hoist_over_denominator(3600 * v, 3600 * d, p as nat);
    }
    assert(p * 10 == 10 * p);
}

/// The seconds in the fraction of an hour that the digits `chars[from..to]`
/// write after a decimal point.
pub fn fraction_to_seconds(chars: &Vec<char>, from: usize, to: usize) -> (seconds: u64)
    requires
        from <= to <= chars.len(),
        all_digits(chars@.subrange(from as int, to as int)),
    ensures
        seconds == fraction_seconds(chars@.subrange(from as int, to as int)),
        seconds < 3600,
{
    let mut carry: u64 = 0;
    let mut i: usize = to;
    assert(chars@.subrange(to as int, to as int) =~= Seq::<char>::empty());
    assert(fraction_seconds(Seq::<char>::empty()) == 0) by {
        assert(pow10(0) == 1);
        assert(decimal_value(Seq::<char>::empty()) == 0);
    }
    while i > from
        invariant
            from <= i <= to <= chars.len(),
            all_digits(chars@.subrange(from as int, to as int)),
            carry == fraction_seconds(chars@.subrange(i as int, to as int)),
            carry < 3600,
        decreases i - from,
    {
        i -= 1;
        let c = chars[i];
        assert(c == chars@.subrange(from as int, to as int)[i - from]);
        let d: u64 = (c as u32 - '0' as u32) as u64;
        proof {
            lemma_fraction_step(c, chars@.subrange(i + 1, to as int));
            assert(seq![c] + chars@.subrange(i + 1, to as int) =~= chars@.subrange(
                i as int,
                to as int,
            ));
        }
        carry = (SECONDS_PER_HOUR * d + carry) / 10;
    }
    carry
}

/// Reads an offset from UTC, written in hours, as seconds.
pub fn parse_offset(text: &str) -> (r: Option<i32>)
    ensures
        r == offset_of_text(text@),
{
    let chars = chars_of(text);
    let n = chars.len();
    let negative = n > 0 && chars[0] == '-';
    let from: usize = if n > 0 && (chars[0] == '+' || chars[0] == '-') {
        1
    } else {
        0
    };
    let ghost body = unsigned_part(text@);
    assert(chars@.skip(from as int) =~= body);
    let point = find_char(&chars, from, '.');
    let after: usize = if point < n {
        point + 1
    } else {
        n
    };
    proof {
        lemma_first_index(body, '.');
        assert(chars@.subrange(from as int, point as int) =~= whole_part(body));
        assert(chars@.subrange(after as int, n as int) =~= fraction_part(body));
    }
    if (point - from) + (n - after) == 0 {
        return None;
    }
    if !digits_only(&chars, from, point) || !digits_only(&chars, after, n) {
        return None;
    }
    // More than 596523 hours are more seconds than an i32 holds.
    match bounded_decimal(&chars, from, point, 596523) {
        Some(hours) => {
            let magnitude: u64 = hours * SECONDS_PER_HOUR + fraction_to_seconds(&chars, after, n);
            if negative && magnitude <= 0x8000_0000 {
                Some((-(magnitude as i64)) as i32)
            } else if !negative && magnitude <= 0x7fff_ffff {
                Some(magnitude as i32)
            } else {
                None
            }
        },
        None => None,
    }
}

} // verus!
