//! Small text utilities: the first number in a reply, and a path's last slash.

use crate::text::{chars_of, push_char};
use vstd::prelude::*;

verus! {

/// Whether `c` is one of the ten decimal digits.
pub open spec fn is_digit(c: char) -> bool {
    '0' <= c <= '9'
}

/// The number that the digit `c` stands for.
pub open spec fn digit_value(c: char) -> nat {
    (c as int - '0' as int) as nat
}

/// The number that a sequence of digits writes in decimal.
pub open spec fn digits_value(digits: Seq<char>) -> nat
    decreases digits.len(),
{
    if digits.len() == 0 {
        0
    } else {
        digits_value(digits.drop_last()) * 10 + digit_value(digits.last())
    }
}

/// The first index at or after `i` that holds a digit, or the length of `s`.
pub open spec fn digits_start(s: Seq<char>, i: int) -> int
    decreases s.len() - i,
{
    if 0 <= i < s.len() && !is_digit(s[i]) {
        digits_start(s, i + 1)
    } else {
        i
    }
}

/// The first index at or after `i` that holds no digit, or the length of `s`.
pub open spec fn digits_end(s: Seq<char>, i: int) -> int
    decreases s.len() - i,
{
    if 0 <= i < s.len() && is_digit(s[i]) {
        digits_end(s, i + 1)
    } else {
        i
    }
}

/// The first unbroken run of digits in `s`; empty where `s` holds no digit.
pub open spec fn first_digit_run(s: Seq<char>) -> Seq<char> {
    let start = digits_start(s, 0);
    s.subrange(start, digits_end(s, start))
}

/// The number that the first run of digits in `s` writes, where there is
/// such a run and the number fits in 32 bits.
pub open spec fn first_integer(s: Seq<char>) -> Option<u32> {
    let run = first_digit_run(s);
    if run.len() > 0 && digits_value(run) <= u32::MAX {
        Some(digits_value(run) as u32)
    } else {
        None
    }
}

/// Finds the first unbroken run of decimal digits in `input` and reads it as
/// a number. `None` where there is no digit or the number does not fit.
pub fn find_and_parse_first_integer(input: String) -> (r: Option<u32>)
    ensures
        r == first_integer(input@),
{
    let v = chars_of(input.as_str());
    let mut start: usize = 0;
    while start < v.len() && !(v[start] >= '0' && v[start] <= '9')
        invariant
            start <= v.len(),
            v@ == input@,
            digits_start(input@, start as int) == digits_start(input@, 0),
        decreases v.len() - start,
    {
        start = start + 1;
    }
    let mut end: usize = start;
    let mut value: u32 = 0;
    let mut fits = true;
    while end < v.len() && v[end] >= '0' && v[end] <= '9'
        invariant
            start <= end <= v.len(),
            v@ == input@,
            digits_end(input@, end as int) == digits_end(input@, start as int),
            fits ==> value == digits_value(input@.subrange(start as int, end as int)),
            !fits ==> digits_value(input@.subrange(start as int, end as int)) > u32::MAX,
        decreases v.len() - end,
    {
        let digit: u32 = (v[end] as u32) - ('0' as u32);
        proof {
            let next = input@.subrange(start as int, end + 1);
            assert(next.drop_last() =~= input@.subrange(start as int, end as int));
            assert(next.last() == input@[end as int]);
        }
        if fits {
            if value > (u32::MAX - digit) / 10 {
                fits = false;
            } else {
                value = value * 10 + digit;
            }
        }
        end = end + 1;
    }
    if end > start && fits {
        Some(value)
    } else {
        None
    }
}

/// `s` with a slash at its end: `s` itself where it ends in one.
pub open spec fn with_tailing_slash(s: Seq<char>) -> Seq<char> {
    if s.len() > 0 && s.last() == '/' {
        s
    } else {
        s.push('/')
    }
}

/// Returns `s` with a slash at its end, adding one where it is missing.
pub fn ensure_tailing_slash(s: &str) -> (r: String)
    ensures
        r@ == with_tailing_slash(s@),
{
    let v = chars_of(s);
    let mut out = s.to_owned();
    if v.len() == 0 || v[v.len() - 1] != '/' {
        push_char(&mut out, '/');
    }
    out
}

/// How much is logged.
#[derive(Debug, Clone, Copy, PartialEq, Eq, Structural)]
pub enum LogLevel {
    Off,
    Error,
    Warn,
    Info,
    Debug,
    Trace,
}

/// The level that the command line asks for: none where it asks for
/// nothing, so that the level set otherwise stays; `Off` where it asks for
/// quiet, however often it also asks for more; else one level more for
/// each request, up to `Trace`.
pub open spec fn requested_level(quiet: bool, verbose: u8) -> Option<LogLevel> {
    if quiet {
        Some(LogLevel::Off)
    } else if verbose == 0 {
        None
    } else if verbose == 1 {
        Some(LogLevel::Error)
    } else if verbose == 2 {
        Some(LogLevel::Warn)
    } else if verbose == 3 {
        Some(LogLevel::Info)
    } else if verbose == 4 {
        Some(LogLevel::Debug)
    } else {
        Some(LogLevel::Trace)
    }
}

/// The level to log at, given whether quiet was asked for and how many
/// times more was asked for.
pub fn verbosity(quiet: bool, verbose: u8) -> (r: Option<LogLevel>)
    ensures
        r == requested_level(quiet, verbose),
{
    match (quiet, verbose) {
        (true, _) => Some(LogLevel::Off),
        (false, 0) => None,
        (false, 1) => Some(LogLevel::Error),
        (false, 2) => Some(LogLevel::Warn),
        (false, 3) => Some(LogLevel::Info),
        (false, 4) => Some(LogLevel::Debug),
        (false, _) => Some(LogLevel::Trace),
    }
}

} // verus!
