//! Wall-clock rendering and parsing. Unix epoch seconds are turned into the
//! local time of day through chrono (trusted, since the result depends on the
//! process time zone); everything around those calls — building `HH:MM` and
//! `HH:MM:SS` strings and reading them back as minutes — is verified exactly.

use crate::text::push_char;
use chrono::Timelike;
use vstd::prelude::*;

verus! {

/// The decimal digit character for a value below ten.
pub open spec fn digit_char(d: int) -> char {
    if d == 0 {
        '0'
    } else if d == 1 {
        '1'
    } else if d == 2 {
        '2'
    } else if d == 3 {
        '3'
    } else if d == 4 {
        '4'
    } else if d == 5 {
        '5'
    } else if d == 6 {
        '6'
    } else if d == 7 {
        '7'
    } else if d == 8 {
        '8'
    } else {
        '9'
    }
}

/// `c` is a decimal digit.
pub open spec fn is_digit(c: char) -> bool {
    48 <= c as u32 <= 57
}

/// The value of a decimal digit character.
pub open spec fn digit_val(c: char) -> int {
    c as u32 - 48
}

/// A digit character carries back exactly the value it was built from.
pub proof fn lemma_digit_roundtrip(d: int)
    requires
        0 <= d < 10,
    ensures
        is_digit(digit_char(d)),
        digit_val(digit_char(d)) == d,
{
}

fn digit_to_char(d: u32) -> (c: char)
    requires
        d < 10,
    ensures
        c == digit_char(d as int),
{
    match d {
        0 => '0',
        1 => '1',
        2 => '2',
        3 => '3',
        4 => '4',
        5 => '5',
        6 => '6',
        7 => '7',
        8 => '8',
        _ => '9',
    }
}

/// The five characters `HH:MM` for an hour and minute below one hundred.
pub open spec fn hm_chars(h: int, m: int) -> Seq<char> {
    seq![
        digit_char(h / 10),
        digit_char(h % 10),
        ':',
        digit_char(m / 10),
        digit_char(m % 10),
    ]
}

/// The eight characters `HH:MM:SS`.
pub open spec fn hms_chars(h: int, m: int, s: int) -> Seq<char> {
    hm_chars(h, m) + seq![':', digit_char(s / 10), digit_char(s % 10)]
}

/// `s` matches `([0-1][0-9]|2[0-3]):[0-5][0-9]`: a zero-padded wall-clock
/// hour and minute.
pub open spec fn valid_hm(s: Seq<char>) -> bool {
    &&& s.len() == 5
    &&& is_digit(s[0])
    &&& is_digit(s[1])
    &&& s[2] == ':'
    &&& is_digit(s[3])
    &&& is_digit(s[4])
    &&& digit_val(s[0]) * 10 + digit_val(s[1]) < 24
    &&& digit_val(s[3]) * 10 + digit_val(s[4]) < 60
}

/// `s` matches a zero-padded `HH:MM:SS` wall-clock time.
pub open spec fn valid_hms(s: Seq<char>) -> bool {
    &&& s.len() == 8
    &&& valid_hm(s.subrange(0, 5))
    &&& s[5] == ':'
    &&& is_digit(s[6])
    &&& is_digit(s[7])
    &&& digit_val(s[6]) * 10 + digit_val(s[7]) < 60
}

/// The minute of the day a `HH:MM` string denotes.
pub open spec fn hm_minutes(s: Seq<char>) -> int {
    (digit_val(s[0]) * 10 + digit_val(s[1])) * 60 + digit_val(s[3]) * 10 + digit_val(s[4])
}

/// Renders an hour and a minute as the five characters `HH:MM`, each part
/// zero-padded to two digits.
pub fn format_hm(h: u32, m: u32) -> (s: String)
    requires
        h < 100,
        m < 100,
    ensures
        s@ == hm_chars(h as int, m as int),
{
    let mut s = String::new();
    push_char(&mut s, digit_to_char(h / 10));
    push_char(&mut s, digit_to_char(h % 10));
    push_char(&mut s, ':');
    push_char(&mut s, digit_to_char(m / 10));
    push_char(&mut s, digit_to_char(m % 10));
    proof {
        assert(s@ =~= hm_chars(h as int, m as int));
    }
    s
}

/// Renders hour, minute and second as the eight characters `HH:MM:SS`.
pub fn format_hms(h: u32, m: u32, sec: u32) -> (s: String)
    requires
        h < 100,
        m < 100,
        sec < 100,
    ensures
        s@ == hms_chars(h as int, m as int, sec as int),
{
    let mut s = format_hm(h, m);
    push_char(&mut s, ':');
    push_char(&mut s, digit_to_char(sec / 10));
    push_char(&mut s, digit_to_char(sec % 10));
    proof {
        assert(s@ =~= hms_chars(h as int, m as int, sec as int));
    }
    s
}

/// An `HH:MM` rendering of an in-range wall-clock time is itself a valid
/// `HH:MM` string, and reads back as the minute of the day it was built from.
pub proof fn lemma_format_hm_valid(h: int, m: int)
    requires
        0 <= h < 24,
        0 <= m < 60,
    ensures
        valid_hm(hm_chars(h, m)),
        hm_minutes(hm_chars(h, m)) == h * 60 + m,
{
    lemma_digit_roundtrip(h / 10);
    lemma_digit_roundtrip(h % 10);
    lemma_digit_roundtrip(m / 10);
    lemma_digit_roundtrip(m % 10);
}

/// Reads a `HH:MM` string back as the minute of the day, `None` exactly on
/// strings that do not match the shape.
pub fn parse_hm(s: &str) -> (r: Option<u32>)
    ensures
        r is Some <==> valid_hm(s@),
        r matches Some(m) ==> m == hm_minutes(s@) && m < 1440,
{
    let n = s.unicode_len();
    if n != 5 {
        return None;
    }
    let c0 = s.get_char(0) as u32;
    let c1 = s.get_char(1) as u32;
    let c2 = s.get_char(2);
    let c3 = s.get_char(3) as u32;
    let c4 = s.get_char(4) as u32;
    if c2 != ':' {
        return None;
    }
    if c0 < 48 || c0 > 57 || c1 < 48 || c1 > 57 || c3 < 48 || c3 > 57 || c4 < 48 || c4 > 57 {
        return None;
    }
    let h = (c0 - 48) * 10 + (c1 - 48);
    let m = (c3 - 48) * 10 + (c4 - 48);
    if h >= 24 || m >= 60 {
        return None;
    }
    Some(h * 60 + m)
}

/// Reads a `HH:MM:SS` string as minutes of the day, dropping the seconds.
///
/// The string must be a valid wall-clock time; the caller checks before it
/// asks.
pub fn time_to_minutes(time: String) -> (r: u32)
    requires
        valid_hms(time@),
    ensures
        r == hm_minutes(time@.subrange(0, 5)),
        r < 1440,
{
    let ts = time.as_str();
    let c0 = ts.get_char(0) as u32;
    let c1 = ts.get_char(1) as u32;
    let c3 = ts.get_char(3) as u32;
    let c4 = ts.get_char(4) as u32;
    proof {
        assert(time@.subrange(0, 5)[0] == time@[0]);
        assert(time@.subrange(0, 5)[1] == time@[1]);
        assert(time@.subrange(0, 5)[3] == time@[3]);
        assert(time@.subrange(0, 5)[4] == time@[4]);
    }
    let h = (c0 - 48) * 10 + (c1 - 48);
    let m = (c3 - 48) * 10 + (c4 - 48);
    h * 60 + m
}

/// The local wall-clock hour, minute and second at a Unix epoch instant.
///
/// Relies on chrono: `DateTime::from_timestamp` (documented to return `None`
/// only for instants more than about 262,000 years away from the common era),
/// `with_timezone` into `chrono::Local`, and the `Timelike` accessors, whose
/// documentation bounds hour below 24 and minute and second below 60. The
/// result depends on the process time zone, so nothing more is claimed of it.
#[verifier::external_body]
pub fn unix_to_local(time: i64) -> (r: Option<(u32, u32, u32)>)
    ensures
        -1_000_000_000_000 <= time <= 1_000_000_000_000 ==> r is Some,
        r matches Some(hms) ==> hms.0 < 24 && hms.1 < 60 && hms.2 < 60,
{
    match chrono::DateTime::from_timestamp(time, 0) {
        None => None,
        Some(utc) => {
            let local = utc.with_timezone(&chrono::Local);
            Some((local.hour(), local.minute(), local.second()))
        },
    }
}

/// The current local wall-clock hour and minute.
///
/// Relies on chrono's `Local::now` and the `Timelike` accessors, whose
/// documentation bounds hour below 24 and minute below 60.
#[verifier::external_body]
pub(crate) fn local_now_hm() -> (r: (u32, u32))
    ensures
        r.0 < 24,
        r.1 < 60,
{
    let now = chrono::Local::now();
    (now.hour(), now.minute())
}

/// Renders a Unix epoch instant as the local wall-clock `HH:MM` string;
/// `None` only for instants chrono cannot place on the calendar.
pub fn render_local_hm(epoch: i64) -> (r: Option<String>)
    ensures
        -1_000_000_000_000 <= epoch <= 1_000_000_000_000 ==> r is Some,
        r matches Some(s) ==> valid_hm(s@),
{
    match unix_to_local(epoch) {
        None => None,
        Some((h, m, _)) => {
            let out = format_hm(h, m);
            proof {
                lemma_format_hm_valid(h as int, m as int);
            }
            Some(out)
        },
    }
}

/// Renders a Unix epoch instant as the local wall-clock `HH:MM:SS` string.
pub fn render_local_hms(epoch: i64) -> (r: Option<String>)
    ensures
        -1_000_000_000_000 <= epoch <= 1_000_000_000_000 ==> r is Some,
        r matches Some(s) ==> valid_hms(s@),
{
    match unix_to_local(epoch) {
        None => None,
        Some((h, m, sec)) => {
            let out = format_hms(h, m, sec);
            proof {
                lemma_format_hm_valid(h as int, m as int);
                lemma_digit_roundtrip(sec as int / 10);
                lemma_digit_roundtrip(sec as int % 10);
                assert(hms_chars(h as int, m as int, sec as int).subrange(0, 5) =~= hm_chars(
                    h as int,
                    m as int,
                ));
            }
            Some(out)
        },
    }
}

} // verus!
