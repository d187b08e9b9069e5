//! Numbers in text.

use crate::text;
use crate::text::{chars_of, decimal};
use vstd::prelude::*;
use vstd::string::*;

verus! {

/// Whether `c` is one of the digits 0 to 9.
pub open spec fn ascii_digit(c: char) -> bool {
    '0' <= c <= '9'
}

/// The number that a row of digits stands for.
pub open spec fn digits_value(s: Seq<char>) -> nat
    decreases s.len(),
{
    if s.len() == 0 {
        0
    } else {
        digits_value(s.drop_last()) * 10 + (s.last() as u32 - '0' as u32) as nat
    }
}

/// The digits of a number: all of it, but for a plus sign in front.
pub open spec fn unsigned_digits(s: Seq<char>) -> Seq<char> {
    if s.len() > 0 && s[0] == '+' {
        s.skip(1)
    } else {
        s
    }
}

/// The unsigned number that a text is, where it is one and does not exceed `max`: an
/// optional plus sign and at least one digit.
pub open spec fn unsigned_number(s: Seq<char>, max: nat) -> Option<nat> {
    let d = unsigned_digits(s);
    if d.len() > 0 && (forall|i: int| 0 <= i < d.len() ==> ascii_digit(#[trigger] d[i]))
        && digits_value(d) <= max {
        Some(digits_value(d))
    } else {
        None
    }
}

/// More digits do not make a number smaller.
proof fn lemma_digits_grow(d: Seq<char>, i: int)
    requires
        0 <= i <= d.len(),
        forall|j: int| 0 <= j < d.len() ==> ascii_digit(#[trigger] d[j]),
    ensures
        digits_value(d.take(i)) <= digits_value(d),
    decreases d.len() - i,
{
    if i == d.len() {
        assert(d.take(i) =~= d);
    } else {
        lemma_digits_grow(d, i + 1);
        assert(d.take(i + 1).drop_last() =~= d.take(i));
    }
}

/// Reads an unsigned number that does not exceed `max`.
pub fn parse_unsigned(s: &str, max: u64) -> (r: Option<u64>)
    ensures
        match r {
            Some(n) => unsigned_number(s@, max as nat) == Some(n as nat),
            None => unsigned_number(s@, max as nat) is None,
        },
{
    let v = chars_of(s);
    let from: usize = if v.len() > 0 && v[0] == '+' {
        1
    } else {
        0
    };
    let ghost d = unsigned_digits(s@);
    assert(d =~= v@.skip(from as int));
    if from == v.len() {
        return None;
    }
    let mut i: usize = from;
    while i < v.len()
        invariant
            from <= i <= v@.len(),
            d == v@.skip(from as int),
            d == unsigned_digits(s@),
            forall|j: int| 0 <= j < i - from ==> ascii_digit(#[trigger] d[j]),
        decreases v@.len() - i,
    {
        assert(d[i - from] == v@[i as int]);
        if !('0' <= v[i] && v[i] <= '9') {
            return None;
        }
        i = i + 1;
    }
    let mut n: u64 = 0;
    let mut k: usize = from;
    assert(d.take(0) =~= Seq::<char>::empty());
    while k < v.len()
        invariant
            from <= k <= v@.len(),
            d == v@.skip(from as int),
            d == unsigned_digits(s@),
            forall|j: int| 0 <= j < d.len() ==> ascii_digit(#[trigger] d[j]),
            n == digits_value(d.take(k - from)),
            n <= max,
        decreases v@.len() - k,
    {
        let ghost at = k - from;
        assert(d[at] == v@[k as int]);
        let digit: u64 = (v[k] as u32 - '0' as u32) as u64;
        assert(d.take(at + 1).drop_last() =~= d.take(at));
        assert(digits_value(d.take(at + 1)) == n * 10 + digit);
        proof {
            lemma_digits_grow(d, at + 1);
        }
        if n > (u64::MAX - digit) / 10 {
            return None;
        }
        n = n * 10 + digit;
        if n > max {
            return None;
        }
        k = k + 1;
    }
    assert(d.take(k - from) =~= d);
    Some(n)
}

/// A whole number in decimal digits, with a minus sign where it is negative.
pub open spec fn integer_text(n: int) -> Seq<char> {
    if n < 0 {
        seq!['-'] + text::decimal_text((-n) as nat)
    } else {
        text::decimal_text(n as nat)
    }
}

/// A whole number in decimal digits.
pub fn integer(n: i32) -> (r: String)
    ensures
        r@ == integer_text(n as int),
{
    if n < 0 {
        let mut out = String::new();
        out.push('-');
        let size: u64 = (-(n as i64)) as u64;
        out.append(decimal(size).as_str());
        assert(out@ =~= integer_text(n as int));
        out
    } else {
        decimal(n as u64)
    }
}

} // verus!
