//! Numbers as text: decimal digits read and written.

use crate::text::{chars_of};
use vstd::prelude::*;

verus! {

/// Whether `c` is one of the digits `0` to `9`.
pub open spec fn is_digit(c: char) -> bool {
    '0' <= c <= '9'
}

/// What a digit counts.
pub open spec fn digit_value(c: char) -> nat {
    (c as u32 - '0' as u32) as nat
}

/// The number that a row of digits writes.
pub open spec fn digits_value(s: Seq<char>) -> nat
    decreases s.len(),
{
    if s.len() == 0 {
        0
    } else {
        digits_value(s.drop_last()) * 10 + digit_value(s.last())
    }
}

/// Whether `s` is a row of one or more digits.
pub open spec fn all_digits(s: Seq<char>) -> bool {
    s.len() > 0 && forall|i: int| 0 <= i < s.len() ==> is_digit(#[trigger] s[i])
}

/// `s` without the plus sign it may begin with.
pub open spec fn without_plus(s: Seq<char>) -> Seq<char> {
    if s.len() > 0 && s[0] == '+' {
        s.drop_first()
    } else {
        s
    }
}

/// The number up to `max` that `s` writes: an optional plus sign and digits,
/// nothing around them.
pub open spec fn number(s: Seq<char>, max: nat) -> Option<nat> {
    let d = without_plus(s);
    if all_digits(d) && digits_value(d) <= max {
        Some(digits_value(d))
    } else {
        None
    }
}

proof fn digits_value_grows(s: Seq<char>, k: int)
    requires
        0 <= k <= s.len(),
    ensures
        digits_value(s.take(k)) <= digits_value(s),
    decreases s.len() - k,
{
    if k < s.len() {
        digits_value_grows(s, k + 1);
        assert(s.take(k + 1).drop_last() =~= s.take(k));
    } else {
        assert(s.take(k) =~= s);
    }
}

/// Reads a number up to `u64::MAX`.
pub fn parse_u64(s: &str) -> (r: Option<u64>)
    ensures
        (match r {
            Some(n) => number(s@, u64::MAX as nat) == Some(n as nat),
            None => number(s@, u64::MAX as nat) is None,
        }),
{
    let all = chars_of(s);
    let mut from: usize = 0;
    if all.len() > 0 && all[0] == '+' {
        from = 1;
    }
    let ghost d = without_plus(s@);
    assert(d =~= all@.subrange(from as int, all@.len() as int));
    if all.len() == from {
        return None;
    }
    let mut value: u64 = 0;
    let mut i: usize = from;
    assert(d.take(0) =~= Seq::<char>::empty());
    while i < all.len()
        invariant
            from <= i <= all@.len(),
            all@ == s@,
            d == without_plus(s@),
            d == all@.subrange(from as int, all@.len() as int),
            value == digits_value(d.take(i - from)),
            forall|j: int| 0 <= j < i - from ==> is_digit(#[trigger] d[j]),
        decreases all@.len() - i,
    {
        let c = all[i];
        assert(d[i - from] == c);
        if c < '0' || c > '9' {
            return None;
        }
        let digit: u64 = (c as u32 - '0' as u32) as u64;
        proof {
            assert(d.take(i - from + 1).drop_last() =~= d.take(i - from));
            digits_value_grows(d, i - from + 1);
        }
        if value > (u64::MAX - digit) / 10 {
            return None;
        }
        value = value * 10 + digit;
        i += 1;
    }
    assert(d.take(d.len() as int) =~= d);
    Some(value)
}

/// Reads a number up to `u8::MAX`.
pub fn parse_u8(s: &str) -> (r: Option<u8>)
    ensures
        (match r {
            Some(n) => number(s@, u8::MAX as nat) == Some(n as nat),
            None => number(s@, u8::MAX as nat) is None,
        }),
{
    match parse_u64(s) {
        Some(n) => if n <= 255 {
            Some(n as u8)
        } else {
            None
        },
        None => None,
    }
}

/// The digit that counts `d`.
pub open spec fn digit_char(d: nat) -> char {
    ('0' as u32 + d) as char
}

/// `n` in decimal digits, without leading zeros.
pub open spec fn decimal(n: nat) -> Seq<char>
    decreases n,
{
    if n < 10 {
        seq![digit_char(n)]
    } else {
        decimal(n / 10).push(digit_char(n % 10))
    }
}

/// `n` in decimal digits, with a minus sign before it where it is negative.
pub open spec fn signed_decimal(n: int) -> Seq<char> {
    if n < 0 {
        seq!['-'] + decimal((-n) as nat)
    } else {
        decimal(n as nat)
    }
}

fn digit(d: u64) -> (c: char)
    requires
        d < 10,
    ensures
        c == digit_char(d as nat),
{
    (48u8 + d as u8) as char
}

/// Writes `n` in decimal digits.
pub fn decimal_text(n: u64) -> (s: String)
    ensures
        s@ == decimal(n as nat),
    decreases n,
{
    if n < 10 {
        let mut s = String::new();
        s.push(digit(n));
        assert(s@ =~= seq![digit_char(n as nat)]);
        s
    } else {
        let mut s = decimal_text(n / 10);
        s.push(digit(n % 10));
        s
    }
}

/// Writes `n` in decimal digits, with a minus sign where it is negative.
pub fn signed_decimal_text(n: i32) -> (s: String)
    ensures
        s@ == signed_decimal(n as int),
{
    if n < 0 {
        let mut s = String::new();
        s.push('-');
        let digits = decimal_text((-(n as i64)) as u64);
        assert(s@ =~= seq!['-']);
        s.append(digits.as_str());
        s
    } else {
        decimal_text(n as u64)
    }
}

proof fn decimal_is_digits(n: nat)
    ensures
        all_digits(decimal(n)),
        digits_value(decimal(n)) == n,
        decimal(n)[0] != '+',
    decreases n,
{
    reveal_with_fuel(digits_value, 2);
    if n < 10 {
        assert(decimal(n).drop_last() =~= Seq::<char>::empty());
    } else {
        decimal_is_digits(n / 10);
        assert(decimal(n).drop_last() =~= decimal(n / 10));
        assert(decimal(n)[0] == decimal(n / 10)[0]);
    }
}

/// A number that was written is read back as it was.
pub proof fn written_number_reads_back(n: nat, max: nat)
    requires
        n <= max,
    ensures
        number(decimal(n), max) == Some(n),
{
    decimal_is_digits(n);
}

/// A text that holds anything but digits, after a plus sign at most, is no number.
pub proof fn only_digits_are_a_number(s: Seq<char>, i: int, max: nat)
    requires
        0 <= i < s.len(),
        !('0' <= s[i] <= '9'),
        i > 0 || s[i] != '+',
    ensures
        number(s, max) is None,
{
    let d = without_plus(s);
    if s[0] == '+' {
        assert(d[i - 1] == s[i]);
    } else {
        assert(d[i] == s[i]);
    }
}

/// A digit more is ten times as much and what the digit counts, and a plus sign changes
/// nothing.
pub proof fn digits_count_from_the_right(s: Seq<char>, d: nat, n: nat, max: nat)
    requires
        number(s, max) == Some(n),
        d < 10,
        10 * n + d <= max,
    ensures
        number(s.push((48 + d) as char), max) == Some((10 * n + d) as nat),
        s[0] != '+' ==> number(seq!['+'] + s, max) == Some(n),
{
    let c = (48 + d) as char;
    let t = s.push(c);
    let plain = without_plus(s);
    assert(without_plus(t) =~= plain.push(c));
    assert(plain.push(c).drop_last() =~= plain);
    assert((seq!['+'] + s).drop_first() =~= s);
}

/// A negative number is written as a minus sign and the number without it.
pub proof fn a_minus_sign_stands_before(n: nat)
    requires
        n > 0,
    ensures
        signed_decimal(-(n as int)) == seq!['-'] + decimal(n),
        signed_decimal(n as int) == decimal(n),
{
}

/// A plus sign may stand before the digits, and only one.
pub proof fn a_plus_sign_may_stand_before(s: Seq<char>, max: nat)
    requires
        s.len() > 0,
    ensures
        s[0] != '+' ==> number(seq!['+'] + s, max) == number(s, max),
        s[0] == '+' ==> number(seq!['+'] + s, max) is None,
        number(Seq::<char>::empty(), max) is None,
        number(seq!['+'], max) is None,
{
    let t = seq!['+'] + s;
    assert(t.drop_first() =~= s);
    assert(t.skip(1) =~= s);
}

} // verus!
