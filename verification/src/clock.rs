//! Time as the detector and the alert serializers see it: a monotonic count
//! of nanoseconds for windows and cooldowns, and a broken-down local
//! wall-clock reading for display.

use vstd::prelude::*;
use std::time::{Duration, Instant};
use crate::text::{decimal, digit_char, digits, push_decimal};

verus! {

/// `std::time::Instant`, declared so that the detector can keep the reading
/// taken when it was made. Nothing is known of its value.
#[verifier::external_type_specification]
#[verifier::external_body]
pub struct ExInstant(Instant);

/// `Instant::now`: a reading of the monotonic clock. Nothing is promised of
/// its value.
pub assume_specification[ Instant::now ]() -> Instant;

/// `Instant::elapsed`: the time that has passed since the reading was taken.
/// Nothing is promised of its value.
pub assume_specification[ Instant::elapsed ](origin: &Instant) -> Duration;

/// The length of a duration in whole nanoseconds.
pub uninterp spec fn duration_nanos(d: Duration) -> u128;

/// `Duration::as_nanos`: the whole duration in nanoseconds, which depends on
/// the duration alone.
pub assume_specification[ Duration::as_nanos ](d: &Duration) -> (n: u128)
    ensures
        n == duration_nanos(*d),
;

/// A wall-clock reading in local time, for display only: the calendar fields
/// and the milliseconds since the Unix epoch of the same instant.
#[derive(Clone, Copy, Debug, PartialEq, Eq, Structural)]
pub struct Timestamp {
    pub unix_millis: i64,
    pub year: i32,
    pub month: u8,
    pub day: u8,
    pub hour: u8,
    pub minute: u8,
    pub second: u8,
}

/// A number below one hundred in two digits, the first one a zero where
/// the number is below ten.
pub open spec fn two_digits(n: u8) -> Seq<char> {
    seq![digits()[(n / 10) as int], digits()[(n % 10) as int]]
}

/// A number below one hundred in two places, the first one a blank where
/// the number is below ten.
pub open spec fn two_places(n: u8) -> Seq<char> {
    if n < 10 {
        seq![' ', digits()[n as int]]
    } else {
        two_digits(n)
    }
}

/// A non-negative number in at least four digits, with leading zeros where
/// it has fewer.
pub open spec fn four_digits(n: nat) -> Seq<char> {
    if n < 10 {
        seq!['0', '0', '0'] + decimal(n)
    } else if n < 100 {
        seq!['0', '0'] + decimal(n)
    } else if n < 1000 {
        seq!['0'] + decimal(n)
    } else {
        decimal(n)
    }
}

/// A year as a date writes it: four digits from 0 to 9999, else a sign and
/// at least four digits.
pub open spec fn year_text(year: i32) -> Seq<char> {
    if 0 <= year <= 9999 {
        four_digits(year as nat)
    } else if year < 0 {
        seq!['-'] + four_digits((-year) as nat)
    } else {
        seq!['+'] + four_digits(year as nat)
    }
}

/// The English three-letter name of a month.
pub open spec fn month_name(month: u8) -> Seq<char> {
    if month == 1 {
        seq!['J', 'a', 'n']
    } else if month == 2 {
        seq!['F', 'e', 'b']
    } else if month == 3 {
        seq!['M', 'a', 'r']
    } else if month == 4 {
        seq!['A', 'p', 'r']
    } else if month == 5 {
        seq!['M', 'a', 'y']
    } else if month == 6 {
        seq!['J', 'u', 'n']
    } else if month == 7 {
        seq!['J', 'u', 'l']
    } else if month == 8 {
        seq!['A', 'u', 'g']
    } else if month == 9 {
        seq!['S', 'e', 'p']
    } else if month == 10 {
        seq!['O', 'c', 't']
    } else if month == 11 {
        seq!['N', 'o', 'v']
    } else {
        seq!['D', 'e', 'c']
    }
}

/// A signed number in decimal, with a minus sign where it is negative.
pub open spec fn signed_decimal(n: int) -> Seq<char> {
    if n < 0 {
        seq!['-'] + decimal((-n) as nat)
    } else {
        decimal(n as nat)
    }
}

/// Appends a number below one hundred in two digits.
fn push_two_digits(out: &mut Vec<char>, n: u8)
    requires
        n < 100,
    ensures
        final(out)@ == old(out)@ + two_digits(n),
{
    out.push(digit_char(n / 10));
    out.push(digit_char(n % 10));
}

/// Appends a non-negative number in at least four digits.
fn push_four_digits(out: &mut Vec<char>, n: u32)
    ensures
        final(out)@ == old(out)@ + four_digits(n as nat),
{
    if n < 10 {
        out.push('0');
        out.push('0');
        out.push('0');
    } else if n < 100 {
        out.push('0');
        out.push('0');
    } else if n < 1000 {
        out.push('0');
    }
    push_decimal(out, n as u128);
}

/// Appends a signed number in decimal.
pub fn push_signed(out: &mut Vec<char>, n: i64)
    ensures
        final(out)@ == old(out)@ + signed_decimal(n as int),
{
    if n < 0 {
        out.push('-');
        let magnitude: u128 = (-(n as i128)) as u128;
        push_decimal(out, magnitude);
    } else {
        push_decimal(out, n as u128);
    }
}

impl Timestamp {
    /// The calendar fields are in their ranges.
    pub open spec fn wf(self) -> bool {
        &&& 1 <= self.month <= 12
        &&& 1 <= self.day <= 31
        &&& self.hour <= 23
        &&& self.minute <= 59
        &&& self.second <= 59
    }

    /// The time of day as `HH:MM:SS`.
    pub open spec fn time_of_day(self) -> Seq<char> {
        two_digits(self.hour) + seq![':'] + two_digits(self.minute) + seq![':'] + two_digits(
            self.second,
        )
    }

    /// The reading as a syslog header writes it: month name, day of month in
    /// two places, time of day.
    pub open spec fn syslog_stamp(self) -> Seq<char> {
        month_name(self.month) + seq![' '] + two_places(self.day) + seq![' ']
            + self.time_of_day()
    }

    /// The reading as `YYYY-MM-DD HH:MM:SS`.
    pub open spec fn display_stamp(self) -> Seq<char> {
        year_text(self.year) + seq!['-'] + two_digits(self.month) + seq!['-'] + two_digits(
            self.day,
        ) + seq![' '] + self.time_of_day()
    }

    /// Appends the time of day.
    fn push_time_of_day(&self, out: &mut Vec<char>)
        requires
            self.wf(),
        ensures
            final(out)@ == old(out)@ + self.time_of_day(),
    {
        push_two_digits(out, self.hour);
        out.push(':');
        push_two_digits(out, self.minute);
        out.push(':');
        push_two_digits(out, self.second);
    }

    /// Appends the name of the month.
    fn push_month_name(&self, out: &mut Vec<char>)
        requires
            self.wf(),
        ensures
            final(out)@ == old(out)@ + month_name(self.month),
    {
        let name = match self.month {
            1 => ['J', 'a', 'n'],
            2 => ['F', 'e', 'b'],
            3 => ['M', 'a', 'r'],
            4 => ['A', 'p', 'r'],
            5 => ['M', 'a', 'y'],
            6 => ['J', 'u', 'n'],
            7 => ['J', 'u', 'l'],
            8 => ['A', 'u', 'g'],
            9 => ['S', 'e', 'p'],
            10 => ['O', 'c', 't'],
            11 => ['N', 'o', 'v'],
            _ => ['D', 'e', 'c'],
        };
        out.push(name[0]);
        out.push(name[1]);
        out.push(name[2]);
    }

    /// Appends the reading as a syslog header writes it.
    pub fn push_syslog_stamp(&self, out: &mut Vec<char>)
        requires
            self.wf(),
        ensures
            final(out)@ == old(out)@ + self.syslog_stamp(),
    {
        self.push_month_name(out);
        out.push(' ');
        if self.day < 10 {
            out.push(' ');
            out.push(digit_char(self.day));
        } else {
            push_two_digits(out, self.day);
        }
        out.push(' ');
        self.push_time_of_day(out);
    }

    /// Appends the reading as `YYYY-MM-DD HH:MM:SS`.
    pub fn push_display_stamp(&self, out: &mut Vec<char>)
        requires
            self.wf(),
        ensures
            final(out)@ == old(out)@ + self.display_stamp(),
    {
        if 0 <= self.year && self.year <= 9999 {
            push_four_digits(out, self.year as u32);
        } else if self.year < 0 {
            out.push('-');
            push_four_digits(out, (-(self.year as i64)) as u32);
        } else {
            out.push('+');
            push_four_digits(out, self.year as u32);
        }
        out.push('-');
        push_two_digits(out, self.month);
        out.push('-');
        push_two_digits(out, self.day);
        out.push(' ');
        self.push_time_of_day(out);
    }
}

/// `chrono::Local::now`, read field by field: the current local date and
/// time. Of the value only the documented ranges of the calendar fields are
/// claimed. On a machine whose clock reads before 1970 chrono does not return
/// but unwinds; the call takes no input that could rule this out.
#[verifier::external_body]
pub(crate) fn local_now() -> (t: Timestamp)
    ensures
        t.wf(),
{
    let now = chrono::Local::now();
    Timestamp {
        unix_millis: now.timestamp_millis(),
        year: chrono::Datelike::year(&now),
        month: chrono::Datelike::month(&now) as u8,
        day: chrono::Datelike::day(&now) as u8,
        hour: chrono::Timelike::hour(&now) as u8,
        minute: chrono::Timelike::minute(&now) as u8,
        second: chrono::Timelike::second(&now) as u8,
    }
}

} // verus!
