//! Arguments of the administrator's `/grant <user_id> <days>` command.
use vstd::prelude::*;
use vstd::string::*;

use crate::media::{all_digits, digits_value, has_prefix, is_digit};
use crate::subscription::PAYMENT_PAYLOAD_PREFIX;
use crate::text::{push_decimal, push_text};
use crate::store::texts;
use crate::white::{split_words, words};

verus! {

/// What `str::parse::<i64>` accepts: an optional sign, then at least one
/// decimal digit, denoting a value in range.
pub open spec fn digit_part(t: Seq<char>) -> Seq<char> {
    if t.len() > 0 && (t[0] == '-' || t[0] == '+') {
        t.subrange(1, t.len() as int)
    } else {
        t
    }
}

pub open spec fn parse_i64_spec(t: Seq<char>) -> Option<i64> {
    let digits = digit_part(t);
    let neg = t.len() > 0 && t[0] == '-';
    if digits.len() == 0 || !all_digits(digits) {
        None
    } else if neg {
        if digits_value(digits) <= 9223372036854775808 {
            Some((-(digits_value(digits) as int)) as i64)
        } else {
            None
        }
    } else if digits_value(digits) <= 9223372036854775807 {
        Some(digits_value(digits) as i64)
    } else {
        None
    }
}

/// Parses a signed decimal number that fits in an `i64`.
pub fn parse_i64(t: &str) -> (r: Option<i64>)
    ensures
        r == parse_i64_spec(t@),
{
    let n = t.unicode_len();
    let mut start: usize = 0;
    let mut neg = false;
    if n > 0 {
        let c = t.get_char(0);
        if c == '-' || c == '+' {
            start = 1;
            neg = c == '-';
        }
    }
    let ghost digits = t@.subrange(start as int, n as int);
    assert(digits =~= digit_part(t@));
    if start == n {
        return None;
    }
    let cap: u128 = 9223372036854775808u128;
    let mut value: u128 = 0;
    let mut i: usize = start;
    while i < n
        invariant
            start <= i <= n,
            n == t@.len(),
            digits == t@.subrange(start as int, n as int),
            digits == digit_part(t@),
            neg == (t@.len() > 0 && t@[0] == '-'),
            cap == 9223372036854775808u128,
            all_digits(t@.subrange(start as int, i as int)),
            value as nat == if digits_value(t@.subrange(start as int, i as int)) <= cap {
                digits_value(t@.subrange(start as int, i as int))
            } else {
                (cap + 1) as nat
            },
        decreases n - i,
    {
        let c = t.get_char(i);
        let ghost before = t@.subrange(start as int, i as int);
        let ghost after = t@.subrange(start as int, i + 1);
        assert(after.drop_last() =~= before);
        assert(after.last() == c);
        if !('0' <= c && c <= '9') {
            proof {
                assert(digits[i - start] == c);
                assert(!is_digit(digits[i - start]));
                assert(!all_digits(digits));
            }
            return None;
        }
        let d = (c as u32 - '0' as u32) as u128;
        let next = value * 10 + d;
        value = if next <= cap { next } else { cap + 1 };
        proof {
            assert(all_digits(after)) by {
                assert forall|j: int| 0 <= j < after.len() implies is_digit(#[trigger] after[j]) by {
                    if j < before.len() {
                        assert(after[j] == before[j]);
                    }
                }
            }
            let v = digits_value(before);
            assert(digits_value(after) == v * 10 + d);
            if v > cap {
                assert(v * 10 + d > cap) by (nonlinear_arith)
                    requires v > cap;
            }
        }
        i = i + 1;
    }
    assert(t@.subrange(start as int, i as int) =~= digits);
    if neg {
        if value <= cap {
            if value == cap {
                Some(i64::MIN)
            } else {
                Some(-(value as i64))
            }
        } else {
            None
        }
    } else if value < cap {
        Some(value as i64)
    } else {
        None
    }
}

/// Why `/grant` arguments were refused.
#[derive(Debug, Clone, Copy, PartialEq, Eq, Structural)]
pub enum GrantError {
    /// Not exactly a command word and two arguments.
    Usage,
    InvalidUserId,
    InvalidDays,
}

/// The arguments that a `/grant` text carries, or why it was refused.
pub open spec fn grant_args(words: Seq<Seq<char>>) -> Result<(i64, i64), GrantError> {
    if words.len() != 3 {
        Err(GrantError::Usage)
    } else {
        match (parse_i64_spec(words[1]), parse_i64_spec(words[2])) {
            (Some(user), Some(days)) => Ok((user, days)),
            (None, _) => Err(GrantError::InvalidUserId),
            (Some(_), None) => Err(GrantError::InvalidDays),
        }
    }
}

/// The user and the number of days that the words of a `/grant` text give.
pub fn parse_grant_words(words: &Vec<String>) -> (r: Result<(i64, i64), GrantError>)
    ensures
        r == grant_args(texts(words@)),
{
    if words.len() != 3 {
        return Err(GrantError::Usage);
    }
    assert(texts(words@)[1] == words@[1]@);
    assert(texts(words@)[2] == words@[2]@);
    let user = match parse_i64(words[1].as_str()) {
        Some(u) => u,
        None => return Err(GrantError::InvalidUserId),
    };
    match parse_i64(words[2].as_str()) {
        Some(days) => Ok((user, days)),
        None => Err(GrantError::InvalidDays),
    }
}

/// Parses `/grant <user_id> <days>`.
pub fn parse_grant_command(text: &str) -> (r: Result<(i64, i64), GrantError>)
    ensures
        r == grant_args(words(text@)),
{
    let words = split_words(text);
    parse_grant_words(&words)
}

/// Whether `s` starts with `p`.
pub fn starts_with_text(s: &str, p: &str) -> (r: bool)
    ensures
        r == has_prefix(s@, p@),
{
    let n = s.unicode_len();
    let m = p.unicode_len();
    if m > n {
        return false;
    }
    let mut i: usize = 0;
    while i < m
        invariant
            n == s@.len(),
            m == p@.len(),
            m <= n,
            i <= m,
            forall|j: int| 0 <= j < i ==> s@[j] == p@[j],
        decreases m - i,
    {
        if s.get_char(i) != p.get_char(i) {
            assert(s@.subrange(0, m as int)[i as int] != p@[i as int]);
            return false;
        }
        i = i + 1;
    }
    assert(s@.subrange(0, m as int) =~= p@);
    true
}

/// The payload of a subscription invoice for a user.
pub fn subscription_payload(user_id: u64) -> (r: String)
    ensures
        r@ == PAYMENT_PAYLOAD_PREFIX@ + crate::text::decimal(user_id as nat),
{
    let mut s = String::from_str(PAYMENT_PAYLOAD_PREFIX);
    push_decimal(&mut s, user_id);
    s
}

/// The user that a payment payload names: the subscription prefix, then a
/// number.
pub open spec fn payment_user(payload: Seq<char>) -> Option<i64> {
    let p = PAYMENT_PAYLOAD_PREFIX@;
    if has_prefix(payload, p) {
        parse_i64_spec(payload.subrange(p.len() as int, payload.len() as int))
    } else {
        None
    }
}

/// The user that a subscription payment is for, if the payload is one.
pub fn payment_user_id(payload: &str) -> (r: Option<i64>)
    ensures
        r == payment_user(payload@),
{
    if !starts_with_text(payload, PAYMENT_PAYLOAD_PREFIX) {
        return None;
    }
    let m = PAYMENT_PAYLOAD_PREFIX.unicode_len();
    let rest = payload.substring_char(m, payload.unicode_len());
    parse_i64(rest)
}

} // verus!
