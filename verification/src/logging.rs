//! The daily log files: their names and the shape of each line.  Reading
//! the clock and writing the files is left to the caller.
use vstd::prelude::*;

use crate::text::{chars_of, decimal, push_chars, push_str, string_of, zero_pad};

verus! {

/// A moment on the local calendar and clock.
#[derive(Debug, Clone, Copy)]
pub struct LocalTime {
    pub year: i32,
    pub month: i32,
    pub day: i32,
    pub hour: i32,
    pub minute: i32,
    pub second: i32,
    pub millisecond: u128,
}

/// An integer written with at least `width` characters, zeros after the
/// sign (`{:0width$}`).
pub open spec fn padded(n: int, width: nat) -> Seq<char> {
    if n < 0 {
        seq!['-'] + zero_pad(decimal((-n) as nat), if width > 0 {
            (width - 1) as nat
        } else {
            0
        })
    } else {
        zero_pad(decimal(n as nat), width)
    }
}

fn push_u128_decimal(v: &mut Vec<char>, n: u128)
    ensures
        final(v)@ == old(v)@ + decimal(n as nat),
    decreases n,
{
    if n >= 10 {
        push_u128_decimal(v, n / 10);
    }
    let d = crate::text::digit((n % 10) as u64);
    v.push(d);
    assert(final(v)@ =~= old(v)@ + decimal(n as nat));
}

fn push_padded_wide(v: &mut Vec<char>, n: u128, width: usize)
    ensures
        final(v)@ == old(v)@ + zero_pad(decimal(n as nat), width as nat),
{
    let mut digits: Vec<char> = Vec::new();
    push_u128_decimal(&mut digits, n);
    assert(digits@ =~= decimal(n as nat));
    let ghost start = v@;
    if digits.len() < width {
        let pad = width - digits.len();
        let mut i: usize = 0;
        while i < pad
            invariant
                i <= pad,
                v@ == start + Seq::new(i as nat, |k: int| '0'),
            decreases pad - i,
        {
            v.push('0');
            i = i + 1;
            assert(v@ =~= start + Seq::new(i as nat, |k: int| '0'));
        }
    }
    push_chars(v, digits.as_slice());
    assert(v@ =~= start + zero_pad(decimal(n as nat), width as nat));
}

fn push_padded_signed(v: &mut Vec<char>, n: i32, width: usize)
    requires
        width >= 1,
    ensures
        final(v)@ == old(v)@ + padded(n as int, width as nat),
{
    if n < 0 {
        v.push('-');
        let magnitude: u128 = (0 - (n as i64)) as u128;
        push_padded_wide(v, magnitude, width - 1);
    } else {
        push_padded_wide(v, n as u128, width);
    }
}

/// The local date: `YYYY-MM-DD`.
pub open spec fn date_text(now: LocalTime) -> Seq<char> {
    padded(now.year as int, 4) + seq!['-'] + padded(now.month as int, 2) + seq!['-'] + padded(now.day as int, 2)
}

/// The local date, `YYYY-MM-DD`.
pub fn format_date(now: LocalTime) -> (date: String)
    ensures
        date@ == date_text(now),
{
    let mut v: Vec<char> = Vec::new();
    push_padded_signed(&mut v, now.year, 4);
    v.push('-');
    push_padded_signed(&mut v, now.month, 2);
    v.push('-');
    push_padded_signed(&mut v, now.day, 2);
    assert(v@ =~= date_text(now));
    string_of(v.as_slice())
}

/// The local time of a log line: date, `T`, and the time to the millisecond.
pub open spec fn timestamp_text(now: LocalTime) -> Seq<char> {
    date_text(now) + seq!['T'] + padded(now.hour as int, 2) + seq![':'] + padded(now.minute as int, 2) + seq![':']
        + padded(now.second as int, 2) + seq!['.'] + zero_pad(decimal(now.millisecond as nat), 3)
}

/// The local time of a log line, `YYYY-MM-DDTHH:MM:SS.mmm`.
pub fn format_timestamp(now: LocalTime) -> (stamp: String)
    ensures
        stamp@ == timestamp_text(now),
{
    let mut v = chars_of(format_date(now).as_str());
    v.push('T');
    push_padded_signed(&mut v, now.hour, 2);
    v.push(':');
    push_padded_signed(&mut v, now.minute, 2);
    v.push(':');
    push_padded_signed(&mut v, now.second, 2);
    v.push('.');
    push_padded_wide(&mut v, now.millisecond, 3);
    assert(v@ =~= timestamp_text(now));
    string_of(v.as_slice())
}

/// The log file of a day: `YYYY-MM-DD.boreal.log`.
pub fn log_file_name(date: &str) -> (name: String)
    ensures
        name@ == date@ + ".boreal.log"@,
{
    let mut v = chars_of(date);
    push_str(&mut v, ".boreal.log");
    string_of(v.as_slice())
}

/// The level's name padded to five characters, as `{:<5}` writes it.
pub open spec fn left_aligned(s: Seq<char>, width: nat) -> Seq<char> {
    if s.len() >= width {
        s
    } else {
        s + Seq::new((width - s.len()) as nat, |i: int| ' ')
    }
}

/// One line of the log: time, level, where it came from, and the message.
pub fn log_line(now: LocalTime, level: &str, target: &str, message: &str) -> (line: String)
    ensures
        line@ == timestamp_text(now) + seq![' '] + left_aligned(level@, 5) + " ["@ + target@ + "] "@ + message@
            + seq!['\n'],
{
    let mut v = chars_of(format_timestamp(now).as_str());
    v.push(' ');
    let lv = chars_of(level);
    push_chars(&mut v, lv.as_slice());
    let ghost before_pad = v@;
    if lv.len() < 5 {
        let pad = 5 - lv.len();
        let mut i: usize = 0;
        while i < pad
            invariant
                i <= pad,
                v@ == before_pad + Seq::new(i as nat, |k: int| ' '),
            decreases pad - i,
        {
            v.push(' ');
            i = i + 1;
            assert(v@ =~= before_pad + Seq::new(i as nat, |k: int| ' '));
        }
    }
    push_str(&mut v, " [");
    push_str(&mut v, target);
    push_str(&mut v, "] ");
    push_str(&mut v, message);
    v.push('\n');
    assert(v@ =~= timestamp_text(now) + seq![' '] + left_aligned(level@, 5) + " ["@ + target@ + "] "@ + message@
        + seq!['\n']);
    string_of(v.as_slice())
}

} // verus!
