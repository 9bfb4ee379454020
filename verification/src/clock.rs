//! Calendar dates and times of day as plain numbers, and the reading of the
//! clock.

use chrono::{Datelike, Timelike};
use vstd::prelude::*;

use crate::text::{padded, push_char, push_padded};

verus! {

/// A day of the calendar.
#[derive(Clone, Copy, Debug, PartialEq, Eq, Structural)]
pub struct Date {
    pub year: i32,
    pub month: u32,
    pub day: u32,
}

/// A date with a time of day, as the store keeps it with each entry. No time
/// zone is attached: the crate reads the clock in UTC.
#[derive(Clone, Copy, Debug, PartialEq, Eq, Structural)]
pub struct Timestamp {
    pub date: Date,
    pub hour: u32,
    pub minute: u32,
    pub second: u32,
    pub nanosecond: u32,
}

/// A year as text: four digits for the years 0 to 9999, otherwise a sign and
/// at least four digits.
pub open spec fn year_text(year: int) -> Seq<char> {
    if 0 <= year <= 9999 {
        padded(year as nat, 4)
    } else if year < 0 {
        seq!['-'] + padded((-year) as nat, 4)
    } else {
        seq!['+'] + padded(year as nat, 4)
    }
}

/// A date as text: year, month and day, the month and the day with two digits,
/// with `-` between them.
pub open spec fn date_text(date: Date) -> Seq<char> {
    year_text(date.year as int) + seq!['-'] + padded(date.month as nat, 2) + seq!['-'] + padded(
        date.day as nat,
        2,
    )
}

impl Date {
    /// Appends the date as text.
    pub(crate) fn push_to(&self, out: &mut String)
        ensures
            final(out)@ == old(out)@ + date_text(*self),
    {
        let year: i64 = self.year as i64;
        if 0 <= year && year <= 9999 {
            push_padded(out, year as u64, 4);
        } else if year < 0 {
            push_char(out, '-');
            push_padded(out, (0 - year) as u64, 4);
        } else {
            push_char(out, '+');
            push_padded(out, year as u64, 4);
        }
        assert(out@ == old(out)@ + year_text(self.year as int));
        push_char(out, '-');
        push_padded(out, self.month as u64, 2);
        push_char(out, '-');
        push_padded(out, self.day as u64, 2);
        assert(out@ == old(out)@ + date_text(*self));
    }

    /// The date as text, such as `2024-02-29`.
    pub fn to_text(&self) -> (out: String)
        ensures
            out@ == date_text(*self),
    {
        let mut out = String::new();
        self.push_to(&mut out);
        out
    }
}

impl Timestamp {
    /// Whether every field lies in the range that the calendar and the clock
    /// give it. The month's own length is not looked at.
    pub open spec fn in_range(self) -> bool {
        &&& 1 <= self.date.month <= 12
        &&& 1 <= self.date.day <= 31
        &&& self.hour <= 23
        &&& self.minute <= 59
        &&& self.second <= 59
        &&& self.nanosecond <= 1_999_999_999
    }
}

/// The current date and time in UTC, read with `chrono::Utc::now` and taken apart
/// with the accessors of `chrono::Datelike` and `chrono::Timelike`. Nothing is
/// known of the instant but the ranges that chrono documents for the fields; a
/// nanosecond of 1,000,000,000 or more stands for a leap second. chrono stops
/// the process where the system clock stands before the year 1970.
#[verifier::external_body]
pub(crate) fn current_time() -> (now: Timestamp)
    ensures
        now.in_range(),
{
    let t = chrono::Utc::now().naive_utc();
    Timestamp {
        date: Date { year: t.year(), month: t.month(), day: t.day() },
        hour: t.hour(),
        minute: t.minute(),
        second: t.second(),
        nanosecond: t.nanosecond(),
    }
}

} // verus!
