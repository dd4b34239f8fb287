//! Decimal digits: writing numbers out and reading them back.

use vstd::prelude::*;
use crate::text::chars_of;


verus! {

/// Whether `c` is one of `0` to `9`.
pub open spec fn is_digit(c: char) -> bool {
    '0' <= c && c <= '9'
}

/// The number that the digit `c` stands for.
pub open spec fn digit_value(c: char) -> nat
    recommends
        is_digit(c),
{
    (c as int - '0' as int) as nat
}

/// The digit that stands for `d`, for `d` below ten.
pub open spec fn digit_char(d: nat) -> char
    recommends
        d < 10,
{
    (d + '0' as nat) as char
}

/// The decimal notation of `n`, without leading zeros.
pub open spec fn decimal(n: nat) -> Seq<char>
    decreases n,
{
    if n < 10 {
        seq![digit_char(n)]
    } else {
        decimal(n / 10).push(digit_char(n % 10))
    }
}

/// The last two decimal digits of `n`, zero-padded.
pub open spec fn two_digits(n: nat) -> Seq<char> {
    seq![digit_char(n / 10 % 10), digit_char(n % 10)]
}

/// The last four decimal digits of `n`, zero-padded.
pub open spec fn four_digits(n: nat) -> Seq<char> {
    two_digits(n / 100) + two_digits(n % 100)
}

/// Whether every character of `s` is a digit.
pub open spec fn all_digits(s: Seq<char>) -> bool {
    forall|i: int| 0 <= i < s.len() ==> is_digit(#[trigger] s[i])
}

/// The number that a run of digits denotes; zero for the empty run.
pub open spec fn digits_value(s: Seq<char>) -> nat
    decreases s.len(),
{
    if s.len() == 0 {
        0
    } else {
        digits_value(s.drop_last()) * 10 + digit_value(s.last())
    }
}

/// What an unsigned decimal number in text denotes: an optional `+`, then one
/// or more digits, whose value fits in 64 bits. Anything else denotes nothing.
pub open spec fn unsigned_value(s: Seq<char>) -> Option<u64> {
    let body = if s.len() > 0 && s[0] == '+' {
        s.skip(1)
    } else {
        s
    };
    if body.len() > 0 && all_digits(body) && digits_value(body) <= u64::MAX {
        Some(digits_value(body) as u64)
    } else {
        None
    }
}

/// The digit for `d`.
pub fn digit_of(d: u8) -> (c: char)
    requires
        d < 10,
    ensures
        c == digit_char(d as nat),
        is_digit(c),
{
    (48u8 + d) as char
}

/// The value of the digit `c`, or `None` where `c` is no digit.
pub fn value_of_digit(c: char) -> (r: Option<u8>)
    ensures
        r is Some <==> is_digit(c),
        r matches Some(d) ==> d == digit_value(c) && d < 10,
{
    if '0' <= c && c <= '9' {
        Some((c as u32 - '0' as u32) as u8)
    } else {
        None
    }
}

/// Appends the decimal notation of `n` to `out`.
pub fn push_decimal(out: &mut String, n: u64)
    ensures
        final(out)@ == old(out)@ + decimal(n as nat),
    decreases n,
{
    if n >= 10 {
        push_decimal(out, n / 10);
    }
    out.push(digit_of((n % 10) as u8));
}

/// Appends the last two decimal digits of `n` to `out`.
pub fn push_two_digits(out: &mut String, n: u16)
    ensures
        final(out)@ == old(out)@ + two_digits(n as nat),
{
    out.push(digit_of((n / 10 % 10) as u8));
    out.push(digit_of((n % 10) as u8));
}

/// Appends the last four decimal digits of `n` to `out`.
pub fn push_four_digits(out: &mut String, n: u16)
    ensures
        final(out)@ == old(out)@ + four_digits(n as nat),
{
    push_two_digits(out, n / 100);
    push_two_digits(out, n % 100);
}

/// A run of digits denotes at least as much as any of its beginnings.
pub proof fn lemma_digits_value_prefix(s: Seq<char>, k: int)
    requires
        0 <= k <= s.len(),
    ensures
        digits_value(s.take(k)) <= digits_value(s),
    decreases s.len() - k,
{
    if k == s.len() {
        assert(s.take(k) =~= s);
    } else {
        lemma_digits_value_prefix(s.drop_last(), k);
        assert(s.drop_last().take(k) =~= s.take(k));
    }
}

/// Reads the digits `chars[from..to]`.
///
/// The result is the number they denote, where all of them are digits and the
/// number fits in 64 bits, and `None` otherwise. An empty range denotes zero.
pub fn parse_digits(chars: &Vec<char>, from: usize, to: usize) -> (r: Option<u64>)
    requires
        from <= to <= chars.len(),
    ensures
        r is Some <==> all_digits(chars@.subrange(from as int, to as int)) && digits_value(
            chars@.subrange(from as int, to as int),
        ) <= u64::MAX,
        r matches Some(v) ==> v == digits_value(chars@.subrange(from as int, to as int)),
{
    let ghost s = chars@.subrange(from as int, to as int);
    let mut acc: u64 = 0;
    let mut i: usize = from;
    while i < to
        invariant
            from <= i <= to <= chars.len(),
            s == chars@.subrange(from as int, to as int),
            all_digits(s.take(i - from)),
            acc == digits_value(s.take(i - from)),
        decreases to - i,
    {
        let ghost next = s.take(i - from + 1);
        proof {
            assert(next.drop_last() =~= s.take(i - from));
            assert(next.last() == chars@[i as int]);
        }
        match value_of_digit(chars[i]) {
            None => {
                proof {
                    assert(!is_digit(s[i - from]));
                }
                return None;
            },
            Some(d) => {
                let shifted = match acc.checked_mul(10) {
                    Some(v) => v.checked_add(d as u64),
                    None => None,
                };
                match shifted {
                    None => {
                        proof {
                            assert(digits_value(next) > u64::MAX);
                            lemma_digits_value_prefix(s, i - from + 1);
                        }
                        return None;
                    },
                    Some(v) => {
                        acc = v;
                    },
                }
            },
        }
        i += 1;
    }
    proof {
        assert(s.take(to - from) =~= s);
    }
    Some(acc)
}

/// Reads an unsigned decimal number: an optional `+`, then one or more
/// digits, nothing before or after. Numbers beyond 64 bits are refused.
pub fn parse_unsigned(text: &str) -> (r: Option<u64>)
    ensures
        r == unsigned_value(text@),
{
    let chars = chars_of(text);
    let start: usize = if chars.len() > 0 && chars[0] == '+' {
        1
    } else {
        0
    };
    proof {
        assert(chars@.subrange(start as int, chars.len() as int) =~= chars@.skip(start as int));
        assert(chars@.skip(0) =~= chars@);
    }
    if start == chars.len() {
        None
    } else {
        parse_digits(&chars, start, chars.len())
    }
}

} // verus!
