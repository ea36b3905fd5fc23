//! Human-readable sizes, durations and times.
use vstd::prelude::*;

use crate::text::{
    decimal,
    push_chars,
    push_decimal,
    push_padded,
    push_str,
    string_of,
    zero_pad,
};

verus! {

/// `n / d` in tenths, rounded to the nearest tenth, ties to even.
pub open spec fn tenths(n: nat, d: nat) -> nat
    recommends
        d > 0,
{
    let q = (n * 10) / d;
    let r = (n * 10) % d;
    if r * 2 > d || (r * 2 == d && q % 2 == 1) {
        q + 1
    } else {
        q
    }
}

/// The text of `t` tenths with one decimal, such as `2.2`.
pub open spec fn one_decimal(t: nat) -> Seq<char> {
    decimal(t / 10) + seq!['.'] + decimal(t % 10)
}

pub open spec fn unit_label(divisor: nat) -> Seq<char> {
    if divisor == 1_000_000_000_000 {
        seq!['T', 'B']
    } else if divisor == 1_000_000_000 {
        seq!['G', 'B']
    } else if divisor == 1_000_000 {
        seq!['M', 'B']
    } else {
        seq!['K', 'B']
    }
}

/// A size in decimal units with one decimal (`2.2 TB`), or in bytes below
/// a kilobyte (`208 B`).
pub open spec fn size_text(bytes: nat) -> Seq<char> {
    if bytes >= 1_000_000_000_000 {
        one_decimal(tenths(bytes, 1_000_000_000_000)) + seq![' '] + unit_label(1_000_000_000_000)
    } else if bytes >= 1_000_000_000 {
        one_decimal(tenths(bytes, 1_000_000_000)) + seq![' '] + unit_label(1_000_000_000)
    } else if bytes >= 1_000_000 {
        one_decimal(tenths(bytes, 1_000_000)) + seq![' '] + unit_label(1_000_000)
    } else if bytes >= 1_000 {
        one_decimal(tenths(bytes, 1_000)) + seq![' '] + unit_label(1_000)
    } else {
        decimal(bytes) + seq![' ', 'B']
    }
}

fn push_tenths(v: &mut Vec<char>, bytes: u64, divisor: u64)
    requires
        divisor > 0,
    ensures
        final(v)@ == old(v)@ + one_decimal(tenths(bytes as nat, divisor as nat)),
{
    let n: u128 = bytes as u128 * 10;
    let d: u128 = divisor as u128;
    let q = n / d;
    let r = n % d;
    let t: u128 = if r * 2 > d || (r * 2 == d && q % 2 == 1) { q + 1 } else { q };
    assert(t == tenths(bytes as nat, divisor as nat));
    assert(t <= 184467440737095516160) by (nonlinear_arith)
        requires
            t <= q + 1,
            q == n / d,
            n == bytes * 10,
            d >= 1,
            bytes <= u64::MAX,
    {
        vstd::arithmetic::div_mod::lemma_div_nonincreasing(n as int, d as int);
    }
    let whole: u64 = (t / 10) as u64;
    let tenth: u64 = (t % 10) as u64;
    push_decimal(v, whole);
    v.push('.');
    push_decimal(v, tenth);
    assert(final(v)@ =~= old(v)@ + one_decimal(tenths(bytes as nat, divisor as nat)));
}

/// Formats a byte count for display.  The tenth is rounded from the exact
/// quotient, ties to even.  Formatting the quotient as a binary float with
/// one decimal rounds the float instead, which for a decimal tie that has no
/// exact binary form goes to whichever side the float fell: 1,150,000 bytes
/// is 1.15 MB exactly and reads "1.2 MB" here, where the float 1.149999...
/// reads "1.1 MB".
pub fn format_bytes(bytes: u64) -> (result: String)
    ensures
        result@ == size_text(bytes as nat),
{
    let mut text: Vec<char> = Vec::new();
    let divisor: u64 = if bytes >= 1_000_000_000_000 {
        1_000_000_000_000
    } else if bytes >= 1_000_000_000 {
        1_000_000_000
    } else if bytes >= 1_000_000 {
        1_000_000
    } else if bytes >= 1_000 {
        1_000
    } else {
        0
    };
    if divisor == 0 {
        push_decimal(&mut text, bytes);
        text.push(' ');
        text.push('B');
        assert(text@ =~= size_text(bytes as nat));
        return string_of(text.as_slice());
    }
    push_tenths(&mut text, bytes, divisor);
    text.push(' ');
    if divisor == 1_000_000_000_000 {
        text.push('T');
    } else if divisor == 1_000_000_000 {
        text.push('G');
    } else if divisor == 1_000_000 {
        text.push('M');
    } else {
        text.push('K');
    }
    text.push('B');
    assert(text@ =~= size_text(bytes as nat));
    string_of(text.as_slice())
}

/// The tenths `t` are within half a tenth of `n / d`: `t * d` and `10 * n`
/// differ by at most half of `d`.
pub open spec fn within_half_a_tenth(t: nat, n: nat, d: nat) -> bool {
    2 * (t * d - 10 * n) <= d && 2 * (10 * n - t * d) <= d
}

/// A label of a count in a unit: a whole number, a point, one digit, a
/// space and the unit's name, whose value is within half a tenth of a unit
/// of the count.
pub open spec fn label_reads(text: Seq<char>, bytes: nat, unit: nat, name: Seq<char>) -> bool {
    exists|whole: nat, tenth: nat|
        #![trigger decimal(whole), decimal(tenth)]
        tenth < 10 && text == decimal(whole) + seq!['.'] + decimal(tenth) + seq![' '] + name && within_half_a_tenth(
            10 * whole + tenth,
            bytes,
            unit,
        )
}

proof fn lemma_tenths_close(n: nat, d: nat)
    requires
        d > 0,
    ensures
        within_half_a_tenth(tenths(n, d), n, d),
{
    let x = (n * 10) as int;
    let q = x / (d as int);
    let r = x % (d as int);
    vstd::arithmetic::div_mod::lemma_fundamental_div_mod(x, d as int);
    vstd::arithmetic::div_mod::lemma_mod_bound(x, d as int);
    assert(x == (d as int) * q + r);
    let t = tenths(n, d) as int;
    if r * 2 > d || (r * 2 == d && q % 2 == 1) {
        assert(t == q + 1);
        assert(t * d == q * d + d) by (nonlinear_arith)
            requires
                t == q + 1,
        ;
    } else {
        assert(t == q);
    }
    assert(q * d == d * q) by (nonlinear_arith);
}

/// A size label of at least a kilobyte shows the count in the largest unit
/// it reaches (KB, MB, GB or TB, each 1000 times the one before), as a number
/// with one decimal that is within half a tenth of a unit of the count: the
/// label's value follows the whole count, not part of it.
pub proof fn law_size_label_is_within_half_a_tenth(bytes: nat)
    requires
        bytes >= 1000,
    ensures
        bytes < 1_000_000 ==> label_reads(size_text(bytes), bytes, 1000, seq!['K', 'B']),
        1_000_000 <= bytes < 1_000_000_000 ==> label_reads(size_text(bytes), bytes, 1_000_000, seq!['M', 'B']),
        1_000_000_000 <= bytes < 1_000_000_000_000 ==> label_reads(
            size_text(bytes),
            bytes,
            1_000_000_000,
            seq!['G', 'B'],
        ),
        1_000_000_000_000 <= bytes ==> label_reads(size_text(bytes), bytes, 1_000_000_000_000, seq!['T', 'B']),
{
    let unit: nat = if bytes >= 1_000_000_000_000 {
        1_000_000_000_000
    } else if bytes >= 1_000_000_000 {
        1_000_000_000
    } else if bytes >= 1_000_000 {
        1_000_000
    } else {
        1000
    };
    let t = tenths(bytes, unit);
    lemma_tenths_close(bytes, unit);
    let whole = t / 10;
    let tenth = t % 10;
    assert(10 * whole + tenth == t);
    assert(size_text(bytes) =~= decimal(whole) + seq!['.'] + decimal(tenth) + seq![' '] + unit_label(unit));
    assert(label_reads(size_text(bytes), bytes, unit, unit_label(unit)));
}

/// A size label never rounds a byte count down to a smaller unit: a count of
/// at least a unit is shown in that unit or a larger one.
pub proof fn law_sizes_below_a_kilobyte_are_exact(bytes: nat)
    requires
        bytes < 1000,
    ensures
        size_text(bytes) == decimal(bytes) + seq![' ', 'B'],
{
}

/// A duration as `1h 02m 03s`, or `2m 03s` under an hour.
pub open spec fn duration_text(seconds: nat) -> Seq<char> {
    let hours = seconds / 3600;
    let minutes = (seconds % 3600) / 60;
    let secs = seconds % 60;
    if hours > 0 {
        decimal(hours) + seq!['h', ' '] + zero_pad(decimal(minutes), 2) + seq!['m', ' '] + zero_pad(
            decimal(secs),
            2,
        ) + seq!['s']
    } else {
        decimal(minutes) + seq!['m', ' '] + zero_pad(decimal(secs), 2) + seq!['s']
    }
}

pub fn format_duration(seconds: u64) -> (result: String)
    ensures
        result@ == duration_text(seconds as nat),
{
    let hours = seconds / 3600;
    let minutes = (seconds % 3600) / 60;
    let secs = seconds % 60;
    let mut text: Vec<char> = Vec::new();
    if hours > 0 {
        push_decimal(&mut text, hours);
        text.push('h');
        text.push(' ');
        push_padded(&mut text, minutes, 2);
        text.push('m');
        text.push(' ');
        push_padded(&mut text, secs, 2);
        text.push('s');
    } else {
        push_decimal(&mut text, minutes);
        text.push('m');
        text.push(' ');
        push_padded(&mut text, secs, 2);
        text.push('s');
    }
    assert(text@ =~= duration_text(seconds as nat));
    string_of(text.as_slice())
}

// ---------------------------------------------------------------------------
// Calendar
// ---------------------------------------------------------------------------

pub open spec fn is_leap(year: int) -> bool {
    (year % 4 == 0 && year % 100 != 0) || year % 400 == 0
}

pub open spec fn year_days(year: int) -> int {
    if is_leap(year) {
        366
    } else {
        365
    }
}

pub open spec fn month_days(year: int, month: int) -> int {
    if month == 2 {
        if is_leap(year) {
            29
        } else {
            28
        }
    } else if month == 4 || month == 6 || month == 9 || month == 11 {
        30
    } else {
        31
    }
}

/// Days from 1970-01-01 to the first of January of `year` (for `year >= 1970`).
pub open spec fn days_before_year(year: int) -> int
    decreases year - 1970,
{
    if year <= 1970 {
        0
    } else {
        days_before_year(year - 1) + year_days(year - 1)
    }
}

/// Days from the first of January to the first of `month` in `year`.
pub open spec fn days_before_month(year: int, month: int) -> int
    decreases month,
{
    if month <= 1 {
        0
    } else {
        days_before_month(year, month - 1) + month_days(year, month - 1)
    }
}

/// A date and time of day.
#[derive(Debug, Clone, Copy, PartialEq, Eq, Structural)]
pub struct CivilTime {
    pub year: u64,
    pub month: u64,
    pub day: u64,
    pub hour: u64,
    pub minute: u64,
    pub second: u64,
}

/// `t` is the moment `seconds` after 1970-01-01T00:00:00.
pub open spec fn civil_of(seconds: nat, t: CivilTime) -> bool {
    &&& t.year >= 1970
    &&& 1 <= t.month <= 12
    &&& 1 <= t.day <= month_days(t.year as int, t.month as int)
    &&& t.hour < 24 && t.minute < 60 && t.second < 60
    &&& seconds == (days_before_year(t.year as int) + days_before_month(t.year as int, t.month as int)
        + t.day - 1) * 86400 + t.hour * 3600 + t.minute * 60 + t.second
}

/// The calendar date and time `seconds` after the epoch.
pub fn civil_time(seconds: u64) -> (result: CivilTime)
    ensures
        civil_of(seconds as nat, result),
{
    let mut days: u64 = seconds / 86400;
    let rest: u64 = seconds % 86400;
    let mut year: u64 = 1970;
    loop
        invariant
            1970 <= year,
            year - 1970 <= seconds / 86400 - days,
            days_before_year(year as int) + days == seconds / 86400,
        ensures
            1970 <= year,
            year - 1970 <= seconds / 86400,
            days_before_year(year as int) + days == seconds / 86400,
            days < year_days(year as int),
        decreases days,
    {
        let length: u64 = if (year % 4 == 0 && year % 100 != 0) || year % 400 == 0 { 366 } else { 365 };
        assert(length == year_days(year as int));
        if days < length {
            break;
        }
        days = days - length;
        year = year + 1;
        assert(days_before_year(year as int) == days_before_year(year - 1) + year_days(year - 1));
    }
    let leap = (year % 4 == 0 && year % 100 != 0) || year % 400 == 0;
    assert(leap == is_leap(year as int));
    let mut month: u64 = 1;
    loop
        invariant
            1 <= month <= 12,
            leap == is_leap(year as int),
            days < year_days(year as int) - days_before_month(year as int, month as int),
            days_before_year(year as int) + days_before_month(year as int, month as int) + days
                == seconds / 86400,
        ensures
            1 <= month <= 12,
            days < month_days(year as int, month as int),
            days_before_year(year as int) + days_before_month(year as int, month as int) + days
                == seconds / 86400,
        decreases 12 - month,
    {
        let length: u64 = if month == 2 {
            if leap { 29 } else { 28 }
        } else if month == 4 || month == 6 || month == 9 || month == 11 {
            30
        } else {
            31
        };
        assert(length == month_days(year as int, month as int));
        if days < length {
            break;
        }
        assert(month < 12) by {
            assert(days_before_month(year as int, 12) + month_days(year as int, 12) == year_days(year as int)) by {
                reveal_with_fuel(days_before_month, 12);
            }
            if month == 12 {
                assert(false);
            }
        }
        days = days - length;
        month = month + 1;
    }
    let t = CivilTime {
        year,
        month,
        day: days + 1,
        hour: rest / 3600,
        minute: (rest % 3600) / 60,
        second: rest % 60,
    };
    assert(seconds == (seconds / 86400) * 86400 + rest);
    t
}

/// `YYYY-MM-DDTHH:MM:SS`.
pub open spec fn iso_text(t: CivilTime) -> Seq<char> {
    zero_pad(decimal(t.year as nat), 4) + seq!['-'] + zero_pad(decimal(t.month as nat), 2) + seq!['-']
        + zero_pad(decimal(t.day as nat), 2) + seq!['T'] + zero_pad(decimal(t.hour as nat), 2) + seq![':']
        + zero_pad(decimal(t.minute as nat), 2) + seq![':'] + zero_pad(decimal(t.second as nat), 2)
}

pub fn iso_datetime(t: CivilTime) -> (result: String)
    ensures
        result@ == iso_text(t),
{
    let mut v: Vec<char> = Vec::new();
    push_padded(&mut v, t.year, 4);
    v.push('-');
    push_padded(&mut v, t.month, 2);
    v.push('-');
    push_padded(&mut v, t.day, 2);
    v.push('T');
    push_padded(&mut v, t.hour, 2);
    v.push(':');
    push_padded(&mut v, t.minute, 2);
    v.push(':');
    push_padded(&mut v, t.second, 2);
    assert(v@ =~= iso_text(t));
    string_of(v.as_slice())
}

/// A modification time as local `YYYY-MM-DDTHH:MM:SS`, given the local
/// offset from UTC in seconds at that moment; empty for times not after the
/// epoch, or whose local time would fall before it.
pub fn format_unix(value: i64, utc_offset_seconds: i64) -> (result: String)
    ensures
        value <= 0 ==> result@.len() == 0,
        value + utc_offset_seconds < 0 ==> result@.len() == 0,
        value > 0 && value + utc_offset_seconds >= 0 ==> exists|t: CivilTime|
            civil_of((value + utc_offset_seconds) as nat, t) && result@ == iso_text(t),
{
    if value <= 0 {
        return String::new();
    }
    let sum: i128 = value as i128 + utc_offset_seconds as i128;
    if sum < 0 {
        return String::new();
    }
    let local = sum as u64;
    let t = civil_time(local);
    iso_datetime(t)
}

} // verus!
