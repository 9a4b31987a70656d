//! What the command-line tools report: health checks, uptimes, calendar times, and where a
//! protocol frame's payload starts.

use crate::error::DdResult;
use crate::rules::{trim_end_char, trim_end_char_exec};
use crate::text::{
    all_digits, chars_of, digits_value, find_char, find_char_in, owned, parse_u32, parse_u64,
    parse_u64_chars, parse_unsigned, push_chars, push_str, split_char, split_chars, string_of,
    sub_chars, trim, trim_chars, upper, upper_chars, ends_with, ends_with_chars,
};
use vstd::prelude::*;

verus! {

/// One line of a health report.
#[derive(Debug, Clone)]
pub struct Check {
    pub ok: bool,
    pub warn: bool,
    pub name: String,
    pub detail: String,
}

/// A passing check.
pub fn ok(name: &str, d: &str) -> (c: Check)
    ensures
        c.ok && !c.warn && c.name@ == name@ && c.detail@ == d@,
{
    Check { ok: true, warn: false, name: owned(name), detail: owned(d) }
}

/// A passing check with a warning.
pub fn warn(name: &str, d: &str) -> (c: Check)
    ensures
        c.ok && c.warn && c.name@ == name@ && c.detail@ == d@,
{
    Check { ok: true, warn: true, name: owned(name), detail: owned(d) }
}

/// A failing check.
pub fn fail(name: &str, d: &str) -> (c: Check)
    ensures
        !c.ok && !c.warn && c.name@ == name@ && c.detail@ == d@,
{
    Check { ok: false, warn: false, name: owned(name), detail: owned(d) }
}

/// Decimal digits of `n`, without leading zeros (`0` for zero).
pub open spec fn dec(n: nat) -> Seq<char>
    decreases n,
{
    if n < 10 {
        seq![(48 + n) as char]
    } else {
        dec(n / 10) + seq![(48 + n % 10) as char]
    }
}

/// Decimal digits of `n`, at least two of them.
pub open spec fn dec2(n: nat) -> Seq<char> {
    if n < 10 {
        seq!['0'] + dec(n)
    } else {
        dec(n)
    }
}

fn digit(d: u64) -> (c: char)
    requires
        d < 10,
    ensures
        c == (48 + d) as char,
{
    if d == 0 {
        '0'
    } else if d == 1 {
        '1'
    } else if d == 2 {
        '2'
    } else if d == 3 {
        '3'
    } else if d == 4 {
        '4'
    } else if d == 5 {
        '5'
    } else if d == 6 {
        '6'
    } else if d == 7 {
        '7'
    } else if d == 8 {
        '8'
    } else {
        '9'
    }
}

/// Decimal digits of `n`.
pub fn decimal(n: u64) -> (v: Vec<char>)
    ensures
        v@ == dec(n as nat),
    decreases n,
{
    if n < 10 {
        let mut v: Vec<char> = Vec::new();
        v.push(digit(n));
        v
    } else {
        let mut v = decimal(n / 10);
        v.push(digit(n % 10));
        v
    }
}

fn decimal2(n: u64) -> (v: Vec<char>)
    ensures
        v@ == dec2(n as nat),
{
    if n < 10 {
        let mut v: Vec<char> = Vec::new();
        v.push('0');
        let d = decimal(n);
        push_chars(&mut v, &d);
        v
    } else {
        decimal(n)
    }
}

/// `HH:MM:SS` for a number of seconds; hours run past 99 as needed.
pub open spec fn uptime_text(secs: nat) -> Seq<char> {
    dec2(secs / 3600) + seq![':'] + dec2((secs % 3600) / 60) + seq![':'] + dec2(secs % 60)
}

/// Formats seconds as `HH:MM:SS`.
pub fn format_uptime(secs: u64) -> (s: String)
    ensures
        s@ == uptime_text(secs as nat),
{
    let h = decimal2(secs / 3600);
    let m = decimal2((secs % 3600) / 60);
    let sec = decimal2(secs % 60);
    let mut out: Vec<char> = Vec::new();
    push_chars(&mut out, &h);
    out.push(':');
    push_chars(&mut out, &m);
    out.push(':');
    push_chars(&mut out, &sec);
    assert(out@ =~= uptime_text(secs as nat));
    string_of(&out)
}

/// A Gregorian leap year.
pub open spec fn leap(y: int) -> bool {
    y % 4 == 0 && (y % 100 != 0 || y % 400 == 0)
}

#[verifier::spinoff_prover]
pub fn is_leap(y: i32) -> (b: bool)
    ensures
        b == leap(y as int),
{
    y % 4 == 0 && (y % 100 != 0 || y % 400 == 0)
}

/// Days in the years from 1970 up to (not including) `y`; none before 1970.
pub open spec fn days_before_year(y: int) -> int
    decreases y - 1970,
{
    if y <= 1970 {
        0
    } else {
        days_before_year(y - 1) + if leap(y - 1) { 366int } else { 365int }
    }
}

/// Days in the months of year `y` before month `mo`.
pub open spec fn days_before_month(y: int, mo: int) -> int
    decreases mo,
{
    if mo <= 1 {
        0
    } else {
        days_before_month(y, mo - 1) + month_len(y, mo - 1)
    }
}

/// Days in month `m` of year `y`.
pub open spec fn month_len(y: int, m: int) -> int {
    if m == 2 {
        if leap(y) { 29 } else { 28 }
    } else if m == 4 || m == 6 || m == 9 || m == 11 {
        30
    } else {
        31
    }
}

/// Seconds since the Unix epoch of a UTC calendar time whose month is 1 to 12 and day 1 to
/// 31 (the day is not checked against the month's length); `None` otherwise.
pub open spec fn civil_seconds_spec(y: i32, mo: u32, day: u32, h: u32, mi: u32, se: u32) -> Option<u64> {
    if !(1 <= mo <= 12) || !(1 <= day <= 31) {
        None
    } else {
        let days = days_before_year(y as int) + days_before_month(y as int, mo as int) + day - 1;
        Some((days * 86400 + h * 3600 + mi * 60 + se) as u64)
    }
}

proof fn lemma_days_before_year_bound(y: int)
    ensures
        0 <= days_before_year(y) <= 366 * (if y > 1970 { y - 1970 } else { 0 }),
    decreases y - 1970,
{
    if y > 1970 {
        lemma_days_before_year_bound(y - 1);
    }
}

proof fn lemma_days_before_month_bound(y: int, mo: int)
    ensures
        0 <= days_before_month(y, mo) <= 31 * (if mo > 1 { mo - 1 } else { 0 }),
    decreases mo,
{
    if mo > 1 {
        lemma_days_before_month_bound(y, mo - 1);
    }
}

/// The calendar arithmetic of an RFC 3339 UTC time.
pub fn civil_seconds(y: i32, mo: u32, day: u32, h: u32, mi: u32, se: u32) -> (r: Option<u64>)
    ensures
        r == civil_seconds_spec(y, mo, day, h, mi, se),
{
    if !(1 <= mo && mo <= 12) || !(1 <= day && day <= 31) {
        return None;
    }
    let mut days: i64 = 0;
    let mut yy: i32 = 1970;
    proof {
        lemma_days_before_year_bound(y as int);
    }
    while yy < y
        invariant
            1970 <= yy,
            yy <= y || yy == 1970,
            days == days_before_year(yy as int),
            0 <= days <= 366 * (yy - 1970),
        decreases y - yy,
    {
        days += if is_leap(yy) { 366 } else { 365 };
        yy += 1;
    }
    let ghost dy = days_before_year(y as int);
    assert(days == dy);
    let mut m: u32 = 1;
    while m < mo
        invariant
            1 <= m <= mo <= 12,
            days == dy + days_before_month(y as int, m as int),
            0 <= days_before_month(y as int, m as int) <= 31 * (m - 1),
            0 <= dy <= 366 * 0x8000_0000,
        decreases mo - m,
    {
        let len: i64 = if m == 2 {
            if is_leap(y) { 29 } else { 28 }
        } else if m == 4 || m == 6 || m == 9 || m == 11 {
            30
        } else {
            31
        };
        days += len;
        m += 1;
    }
    days += day as i64 - 1;
    proof {
        lemma_days_before_year_bound(y as int);
        assert(days * 86400 + h * 3600 + mi * 60 + se <= u64::MAX) by (nonlinear_arith)
            requires
                0 <= days <= 366 * 0x8000_0000 + 31 * 12,
                h <= u32::MAX,
                mi <= u32::MAX,
                se <= u32::MAX,
        ;
    }
    Some((days as u64) * 86400 + (h as u64) * 3600 + (mi as u64) * 60 + se as u64)
}

/// Where the payload of a protocol capture starts: after a four-byte big-endian length
/// prefix when that prefix names exactly the rest of the bytes, at the start otherwise.
pub open spec fn payload_start(bytes: Seq<u8>) -> nat {
    if bytes.len() >= 4 && (bytes[0] as nat) * 16777216 + (bytes[1] as nat) * 65536 + (bytes[2] as nat)
        * 256 + (bytes[3] as nat) + 4 == bytes.len() {
        4
    } else {
        0
    }
}

pub fn frame_payload_start(bytes: &[u8]) -> (i: usize)
    ensures
        i == payload_start(bytes@),
{
    if bytes.len() >= 4 {
        let n: u64 = (bytes[0] as u64) * 16777216 + (bytes[1] as u64) * 65536 + (bytes[2] as u64) * 256
            + (bytes[3] as u64);
        if n + 4 == bytes.len() as u64 {
            return 4;
        }
    }
    0
}

/// What a time argument (`7d`, `12h`, `30m`, `45s`, plain seconds, or an RFC 3339 UTC time)
/// reads as, before any floating-point work.
#[derive(Debug, Clone)]
pub enum TimeSpec {
    /// A number of seconds.
    Seconds(u64),
    /// A calendar time; its seconds field is still text.
    Calendar { year: i32, month: u32, day: u32, hour: u32, minute: u32, second_text: String },
    /// A duration whose number of seconds does not fit a `u64`.
    Overflow,
    /// Not a time.
    Invalid,
}

/// Seconds in one unit of a duration suffix.
pub open spec fn unit_secs(c: char) -> nat {
    if c == 'd' {
        86400
    } else if c == 'h' {
        3600
    } else if c == 'm' {
        60
    } else {
        1
    }
}

/// A duration suffix.
pub open spec fn is_unit(c: char) -> bool {
    c == 'd' || c == 'h' || c == 'm' || c == 's'
}

/// `str::parse::<i32>`: an optional sign, at least one digit, and a value that fits.
pub open spec fn parse_i32(s: Seq<char>) -> Option<i32> {
    if s.len() > 0 && s[0] == '-' {
        let d = s.drop_first();
        if d.len() > 0 && all_digits(d) && digits_value(d) <= 0x8000_0000 {
            Some((-(digits_value(d) as int)) as i32)
        } else {
            None
        }
    } else {
        match parse_unsigned(s, i32::MAX as nat) {
            Some(v) => Some(v as i32),
            None => None,
        }
    }
}

/// What an RFC 3339 text reads as: after trailing `Z`s are dropped, a date `Y-M-D` and a time
/// `h:m:s` on either side of the first `T`, each field a number (the seconds still text);
/// extra fields are ignored.
pub open spec fn calendar_reads_as(r: TimeSpec, t: Seq<char>) -> bool {
    let u = trim_end_char(trim(t), 'Z');
    match find_char(u, 'T') {
        None => r is Invalid,
        Some(k) => {
            let dp = split_char(u.take(k), '-');
            let tp = split_char(u.skip(k + 1), ':');
            if dp.len() >= 3 && tp.len() >= 3 && parse_i32(dp[0]) is Some && parse_u32(dp[1]) is Some
                && parse_u32(dp[2]) is Some && parse_u32(tp[0]) is Some && parse_u32(tp[1]) is Some {
                &&& r is Calendar
                &&& r->year == parse_i32(dp[0])->0
                &&& r->month == parse_u32(dp[1])->0
                &&& r->day == parse_u32(dp[2])->0
                &&& r->hour == parse_u32(tp[0])->0
                &&& r->minute == parse_u32(tp[1])->0
                &&& r->second_text@ == tp[2]
            } else {
                r is Invalid
            }
        },
    }
}

/// What a time argument reads as: trimmed, a number with a `d`, `h`, `m` or `s` suffix is that
/// many days, hours, minutes or seconds; otherwise a text holding `T` is a calendar time, and
/// anything else a plain number of seconds.
pub open spec fn reads_as(r: TimeSpec, s: Seq<char>) -> bool {
    let t = trim(s);
    if t.len() > 0 && is_unit(t.last()) {
        match parse_u64(t.drop_last()) {
            None => r is Invalid,
            Some(n) => if n * unit_secs(t.last()) <= u64::MAX {
                r == TimeSpec::Seconds((n * unit_secs(t.last())) as u64)
            } else {
                r is Overflow
            },
        }
    } else if find_char(t, 'T') is Some {
        calendar_reads_as(r, t)
    } else {
        match parse_u64(t) {
            Some(n) => r == TimeSpec::Seconds(n),
            None => r is Invalid,
        }
    }
}

fn parse_u32_chars(s: &[char]) -> (r: Option<u32>)
    ensures
        r == parse_u32(s@),
{
    match parse_u64_chars(s) {
        Some(v) => {
            if v <= u32::MAX as u64 {
                Some(v as u32)
            } else {
                None
            }
        },
        None => None,
    }
}

fn parse_i32_chars(s: &[char]) -> (r: Option<i32>)
    ensures
        r == parse_i32(s@),
{
    if s.len() > 0 && s[0] == '-' {
        let d = sub_chars(s, 1, s.len());
        assert(d@ =~= s@.drop_first());
        if d.len() == 0 || d[0] == '+' {
            return None;
        }
        match parse_u64_chars(&d) {
            Some(v) => {
                if v <= 0x8000_0000 {
                    let w: i64 = -(v as i64);
                    Some(w as i32)
                } else {
                    None
                }
            },
            None => None,
        }
    } else {
        match parse_u64_chars(s) {
            Some(v) => {
                if v <= i32::MAX as u64 {
                    Some(v as i32)
                } else {
                    None
                }
            },
            None => None,
        }
    }
}

fn parse_calendar(t: &[char]) -> (r: TimeSpec)
    ensures
        calendar_reads_as(r, t@),
{
    let tt = trim_chars(t);
    let u = trim_end_char_exec(&tt, 'Z');
    let found = find_char_in(&u, 'T');
    if found.is_none() {
        return TimeSpec::Invalid;
    }
    let k = found.unwrap();
    let ul = u.len();
    assert(k < ul);
    let date = sub_chars(&u, 0, k);
    let time = sub_chars(&u, k + 1, ul);
    assert(date@ =~= u@.take(k as int));
    assert(time@ =~= u@.skip(k + 1));
    let dp = split_chars(&date, '-');
    let tp = split_chars(&time, ':');
    if dp.len() < 3 || tp.len() < 3 {
        return TimeSpec::Invalid;
    }
    let year = match parse_i32_chars(&dp[0]) {
        Some(v) => v,
        None => {
            return TimeSpec::Invalid;
        },
    };
    let month = match parse_u32_chars(&dp[1]) {
        Some(v) => v,
        None => {
            return TimeSpec::Invalid;
        },
    };
    let day = match parse_u32_chars(&dp[2]) {
        Some(v) => v,
        None => {
            return TimeSpec::Invalid;
        },
    };
    let hour = match parse_u32_chars(&tp[0]) {
        Some(v) => v,
        None => {
            return TimeSpec::Invalid;
        },
    };
    let minute = match parse_u32_chars(&tp[1]) {
        Some(v) => v,
        None => {
            return TimeSpec::Invalid;
        },
    };
    TimeSpec::Calendar { year, month, day, hour, minute, second_text: string_of(&tp[2]) }
}

/// Reads a time argument (see `reads_as`).
pub fn parse_time_spec(s: &str) -> (r: TimeSpec)
    ensures
        reads_as(r, s@),
{
    let raw = chars_of(s);
    let t = trim_chars(&raw);
    let n = t.len();
    if n > 0 && (t[n - 1] == 'd' || t[n - 1] == 'h' || t[n - 1] == 'm' || t[n - 1] == 's') {
        let c = t[n - 1];
        let body = sub_chars(&t, 0, n - 1);
        assert(body@ =~= t@.drop_last());
        return match parse_u64_chars(&body) {
            None => TimeSpec::Invalid,
            Some(v) => {
                let unit: u64 = if c == 'd' {
                    86400
                } else if c == 'h' {
                    3600
                } else if c == 'm' {
                    60
                } else {
                    1
                };
                match v.checked_mul(unit) {
                    Some(x) => TimeSpec::Seconds(x),
                    None => TimeSpec::Overflow,
                }
            },
        };
    }
    if find_char_in(&t, 'T').is_some() {
        return parse_calendar(&t);
    }
    match parse_u64_chars(&t) {
        Some(v) => TimeSpec::Seconds(v),
        None => TimeSpec::Invalid,
    }
}

/// Room kept free below the storage maximum before the disk check warns: 64 MiB.
pub const DISK_HEADROOM: u64 = 67108864;

/// Peers not seen for this long are stale: 30 days.
pub const STALE_AFTER_SECS: u64 = 2592000;

/// The store is within `DISK_HEADROOM` of a set maximum (a maximum of 0 means none).
pub fn disk_nearly_full(used: u64, maximum: u64) -> (b: bool)
    requires
        used + DISK_HEADROOM <= u64::MAX,
    ensures
        b == (used + DISK_HEADROOM > maximum && maximum > 0),
{
    used + DISK_HEADROOM > maximum && maximum > 0
}

/// How many of the last-seen times are more than `STALE_AFTER_SECS` before `now`.
pub open spec fn stale_count(seen: Seq<u64>, now: u64) -> nat
    decreases seen.len(),
{
    if seen.len() == 0 {
        0
    } else {
        stale_count(seen.drop_last(), now) + if now > seen.last() && now - seen.last()
            > STALE_AFTER_SECS {
            1nat
        } else {
            0nat
        }
    }
}

/// Counts the peers whose last encounter is more than 30 days before `now`.
pub fn stale_peers(last_seen: &[u64], now: u64) -> (n: usize)
    ensures
        n == stale_count(last_seen@, now),
{
    let mut n: usize = 0;
    let mut i: usize = 0;
    while i < last_seen.len()
        invariant
            i <= last_seen@.len(),
            n == stale_count(last_seen@.take(i as int), now),
            n <= i,
        decreases last_seen@.len() - i,
    {
        assert(last_seen@.take(i + 1).drop_last() =~= last_seen@.take(i as int));
        if now.saturating_sub(last_seen[i]) > STALE_AFTER_SECS {
            n += 1;
        }
        i += 1;
    }
    assert(last_seen@.take(last_seen@.len() as int) =~= last_seen@);
    n
}

/// A size text split into its number and the multiplier of its unit: `GB`, `MB` and `KB`
/// (in any case) are powers of 1024, and no unit means bytes.
pub open spec fn size_parts(s: Seq<char>) -> (Seq<char>, u64) {
    let t = upper(trim(s));
    if ends_with(t, "GB"@) {
        (t.take(t.len() - 2), 1073741824u64)
    } else if ends_with(t, "MB"@) {
        (t.take(t.len() - 2), 1048576u64)
    } else if ends_with(t, "KB"@) {
        (t.take(t.len() - 2), 1024u64)
    } else {
        (t, 1u64)
    }
}

/// Splits a configured size such as `20GB` into the number's text and the unit's multiplier.
pub fn size_unit(s: &str) -> (r: (String, u64))
    ensures
        r.0@ == size_parts(s@).0,
        r.1 == size_parts(s@).1,
{
    let raw = chars_of(s);
    let tr = trim_chars(&raw);
    let t = upper_chars(&tr);
    let n = t.len();
    proof {
        reveal_strlit("GB");
        reveal_strlit("MB");
        reveal_strlit("KB");
    }
    if ends_with_chars(&t, &chars_of("GB")) {
        let x = sub_chars(&t, 0, n - 2);
        (string_of(&x), 1073741824u64)
    } else if ends_with_chars(&t, &chars_of("MB")) {
        let x = sub_chars(&t, 0, n - 2);
        (string_of(&x), 1048576u64)
    } else if ends_with_chars(&t, &chars_of("KB")) {
        let x = sub_chars(&t, 0, n - 2);
        (string_of(&x), 1024u64)
    } else {
        (string_of(&t), 1u64)
    }
}

} // verus!
