//! The local time, by the `chrono` crate, and the stamps made of it.

use vstd::prelude::*;
use chrono::{Datelike, Timelike};
use crate::text::{decimal, push_char, push_decimal};

verus! {

/// A reading of the local clock, to the minute.
#[derive(Debug, Clone, Copy, PartialEq, Eq, Structural)]
pub struct WallClock {
    pub year: i32,
    pub month: u32,
    pub day: u32,
    pub hour: u32,
    pub minute: u32,
}

/// Reads `chrono::Local::now()` and hands out its calendar fields, by
/// `Datelike::year`, `month`, `day` and `Timelike::hour`, `minute`. Which
/// instant comes back is open; the fields lie in the ranges that chrono
/// documents for them.
#[verifier::external_body]
pub(crate) fn local_now() -> (out: WallClock)
    ensures
        1 <= out.month <= 12,
        1 <= out.day <= 31,
        out.hour < 24,
        out.minute < 60,
{
    let now = chrono::Local::now();
    WallClock {
        year: now.year(),
        month: now.month(),
        day: now.day(),
        hour: now.hour(),
        minute: now.minute(),
    }
}

/// `chrono::Local::now().to_rfc3339()`: the present instant as text. Nothing
/// is promised of it.
#[verifier::external_body]
pub(crate) fn local_now_rfc3339() -> String {
    chrono::Local::now().to_rfc3339()
}

/// `n` in decimal, with a leading zero where it has one digit.
pub open spec fn two_digits(n: nat) -> Seq<char> {
    if n < 10 {
        seq!['0'] + decimal(n)
    } else {
        decimal(n)
    }
}

/// `n` in decimal, with leading zeros up to four digits.
pub open spec fn four_digits(n: nat) -> Seq<char> {
    if n < 10 {
        seq!['0', '0', '0'] + decimal(n)
    } else if n < 100 {
        seq!['0', '0'] + decimal(n)
    } else if n < 1000 {
        seq!['0'] + decimal(n)
    } else {
        decimal(n)
    }
}

/// A year: four digits from 0 to 9999, and a sign before any other.
pub open spec fn year_text(y: int) -> Seq<char> {
    if y < 0 {
        seq!['-'] + four_digits((-y) as nat)
    } else if y > 9999 {
        seq!['+'] + decimal(y as nat)
    } else {
        four_digits(y as nat)
    }
}

/// The stamp of a reading: day, month and year with dots, then hour and minute.
pub open spec fn stamp(c: WallClock) -> Seq<char> {
    two_digits(c.day as nat) + seq!['.'] + two_digits(c.month as nat) + seq!['.'] + year_text(
        c.year as int,
    ) + seq![' '] + two_digits(c.hour as nat) + seq![':'] + two_digits(c.minute as nat)
}

fn push_two_digits(out: &mut String, n: u32)
    ensures
        final(out)@ == old(out)@ + two_digits(n as nat),
{
    if n < 10 {
        push_char(out, '0');
    }
    push_decimal(out, n as u128);
    assert(out@ =~= old(out)@ + two_digits(n as nat));
}

fn push_four_digits(out: &mut String, n: u128)
    ensures
        final(out)@ == old(out)@ + four_digits(n as nat),
{
    if n < 1000 {
        push_char(out, '0');
    }
    if n < 100 {
        push_char(out, '0');
    }
    if n < 10 {
        push_char(out, '0');
    }
    push_decimal(out, n);
    assert(out@ =~= old(out)@ + four_digits(n as nat));
}

fn push_year(out: &mut String, y: i32)
    ensures
        final(out)@ == old(out)@ + year_text(y as int),
{
    if y < 0 {
        push_char(out, '-');
        push_four_digits(out, (-(y as i64)) as u128);
    } else if y > 9999 {
        push_char(out, '+');
        push_decimal(out, y as u128);
    } else {
        push_four_digits(out, y as u128);
    }
    assert(out@ =~= old(out)@ + year_text(y as int));
}

/// The stamp of a reading of the clock.
pub fn stamp_of(c: &WallClock) -> (out: String)
    ensures
        out@ == stamp(*c),
{
    let mut out = String::new();
    push_two_digits(&mut out, c.day);
    push_char(&mut out, '.');
    push_two_digits(&mut out, c.month);
    push_char(&mut out, '.');
    push_year(&mut out, c.year);
    push_char(&mut out, ' ');
    push_two_digits(&mut out, c.hour);
    push_char(&mut out, ':');
    push_two_digits(&mut out, c.minute);
    assert(out@ =~= stamp(*c));
    out
}

} // verus!
