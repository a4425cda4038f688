//! Calendar dates as plain values, and the reading of ISO 8601 form input.

use vstd::prelude::*;

verus! {

/// `time::error::Parse`, carried opaquely as the error of `parse_iso_date`.
#[verifier::external_type_specification]
#[verifier::external_body]
pub struct ExParseError(time::error::Parse);

/// A calendar date.
#[derive(Clone, Copy, PartialEq, Eq, Structural, Debug)]
pub struct Date {
    pub year: i32,
    pub month: u8,
    pub day: u8,
}

/// The earliest date that the calendar library represents; an unreadable start date
/// falls back to it.
pub open spec fn date_min() -> Date {
    Date { year: -9999i32, month: 1u8, day: 1u8 }
}

/// The value of `date_min`.
pub fn earliest_date() -> (r: Date)
    ensures
        r == date_min(),
{
    Date { year: -9999, month: 1, day: 1 }
}

impl Date {
    /// The month and the day are in range.
    pub open spec fn wf(&self) -> bool {
        &&& 1 <= self.month <= 12
        &&& 1 <= self.day <= 31
    }

    /// A number that orders well-formed dates chronologically.
    pub open spec fn key(&self) -> int {
        self.year * 512 + self.month * 32 + self.day
    }

    /// Whether the month and the day are in range.
    pub fn is_valid(&self) -> (r: bool)
        ensures
            r == self.wf(),
    {
        1 <= self.month && self.month <= 12 && 1 <= self.day && self.day <= 31
    }

    /// Whether `self` comes strictly before `other`.
    pub fn is_before(&self, other: &Date) -> (r: bool)
        ensures
            r == (self.key() < other.key()),
    {
        let a: i64 = self.year as i64 * 512 + self.month as i64 * 32 + self.day as i64;
        let b: i64 = other.year as i64 * 512 + other.month as i64 * 32 + other.day as i64;
        a < b
    }
}

/// Well-formed dates compare by key exactly as they compare by year, then month,
/// then day.
pub proof fn lemma_key_is_chronological(a: Date, b: Date)
    requires
        a.wf(),
        b.wf(),
    ensures
        (a.key() < b.key()) <==> (a.year < b.year || (a.year == b.year && (a.month < b.month || (
        a.month == b.month && a.day < b.day)))),
        (a.key() == b.key()) <==> a == b,
{
}

/// The (year, month, day) that `time::Date::parse` reads from `text` in the ISO 8601
/// format (`None` where it reads no date).
pub uninterp spec fn iso_calendar_date(text: Seq<char>) -> Option<(int, int, int)>;

/// Relies on `time::Date::parse` with `Iso8601::DEFAULT`: the outcome depends on the
/// text alone, and a date has a month in 1..=12 and a day in 1..=31.
#[verifier::external_body]
fn parse_iso_date(text: &str) -> (r: Result<Date, time::error::Parse>)
    ensures
        match r {
            Ok(d) => iso_calendar_date(text@) == Some((d.year as int, d.month as int, d.day as int))
                && d.wf(),
            Err(_) => iso_calendar_date(text@) is None,
        },
{
    match time::Date::parse(text, &time::format_description::well_known::Iso8601::DEFAULT) {
        Ok(d) => Ok(Date { year: d.year(), month: u8::from(d.month()), day: d.day() }),
        Err(e) => Err(e),
    }
}

/// The date that a form field holds, or `None`.
pub open spec fn date_of(text: Seq<char>) -> Option<Date> {
    match iso_calendar_date(text) {
        Some((y, m, d)) => Some(Date { year: y as i32, month: m as u8, day: d as u8 }),
        None => None,
    }
}

/// Reads a required date field; unreadable input gives `date_min()`.
pub fn parse_date(text: &str) -> (r: Date)
    ensures
        r == match date_of(text@) {
            Some(d) => d,
            None => date_min(),
        },
        r.wf(),
{
    match parse_iso_date(text) {
        Ok(d) => d,
        Err(_) => earliest_date(),
    }
}

/// Reads an optional date field; a missing or unreadable one gives `None`.
pub fn parse_date_option(text: Option<String>) -> (r: Option<Date>)
    ensures
        r == match text {
            Some(t) => date_of(t@),
            None => None,
        },
        r matches Some(d) ==> d.wf(),
{
    match text {
        Some(t) => match parse_iso_date(t.as_str()) {
            Ok(d) => Some(d),
            Err(_) => None,
        },
        None => None,
    }
}

} // verus!
