//! Dates and date-times as RFC 5545 writes them: `YYYYMMDD` for a date,
//! `YYYYMMDDTHHMMSS` for a floating date-time, and the same with a `Z` for
//! one in UTC.

use chrono::{Datelike, Timelike};
use vstd::prelude::*;
use crate::properties::{insert_keyed, key_index, resolved_type, Parameter, Property, PropertyView};
use crate::value_types::ValueType;

verus! {

/// A calendar date of the proleptic Gregorian calendar.
#[derive(Copy, Clone, Debug, PartialEq, Eq, Structural)]
pub struct CalendarDate {
    pub year: i32,
    pub month: u32,
    pub day: u32,
}

/// A date with a time of day, in no particular time zone.
#[derive(Copy, Clone, Debug, PartialEq, Eq, Structural)]
pub struct LocalDateTime {
    pub date: CalendarDate,
    pub hour: u32,
    pub minute: u32,
    pub second: u32,
}

pub open spec fn is_leap_year(y: int) -> bool {
    (y % 4 == 0 && y % 100 != 0) || y % 400 == 0
}

pub open spec fn days_in_month(y: int, m: int) -> int {
    if m == 2 {
        if is_leap_year(y) {
            29
        } else {
            28
        }
    } else if m == 4 || m == 6 || m == 9 || m == 11 {
        30
    } else {
        31
    }
}

/// A date that exists, with a year of four digits.
pub open spec fn valid_date(d: CalendarDate) -> bool {
    &&& 0 <= d.year <= 9999
    &&& 1 <= d.month <= 12
    &&& 1 <= d.day <= days_in_month(d.year as int, d.month as int)
}

/// A date-time that exists, with a year of four digits.
pub open spec fn valid_date_time(t: LocalDateTime) -> bool {
    &&& valid_date(t.date)
    &&& t.hour < 24
    &&& t.minute < 60
    &&& t.second < 60
}

pub open spec fn digit(n: int) -> char {
    ((n % 10) + 48) as char
}

pub open spec fn two_digits(n: int) -> Seq<char> {
    seq![digit(n / 10), digit(n)]
}

pub open spec fn four_digits(n: int) -> Seq<char> {
    seq![digit(n / 1000), digit(n / 100), digit(n / 10), digit(n)]
}

/// `YYYYMMDD`.
pub open spec fn date_text(d: CalendarDate) -> Seq<char> {
    four_digits(d.year as int) + two_digits(d.month as int) + two_digits(d.day as int)
}

/// `YYYYMMDDTHHMMSS`.
pub open spec fn local_text(t: LocalDateTime) -> Seq<char> {
    date_text(t.date) + seq!['T'] + two_digits(t.hour as int) + two_digits(t.minute as int)
        + two_digits(t.second as int)
}

/// What chrono's `NaiveDateTime::parse_from_str` makes of a text under a
/// format.
pub uninterp spec fn parsed_date_time(s: Seq<char>, fmt: Seq<char>) -> Option<LocalDateTime>;

/// What chrono's `NaiveDate::parse_from_str` makes of a text under a format.
pub uninterp spec fn parsed_date(s: Seq<char>, fmt: Seq<char>) -> Option<CalendarDate>;

/// Relies on `chrono::NaiveDateTime::parse_from_str`: the result depends on
/// the text and the format alone, and a date-time that it returns exists.
/// A leap second is read as second 59, as chrono reports it.
#[verifier::external_body]
fn parse_date_time(s: &str, fmt: &str) -> (r: Option<LocalDateTime>)
    ensures
        r == parsed_date_time(s@, fmt@),
        r matches Some(t) ==> (1 <= t.date.month <= 12 && 1 <= t.date.day <= days_in_month(
            t.date.year as int,
            t.date.month as int,
        ) && t.hour < 24 && t.minute < 60 && t.second < 60),
{
    chrono::NaiveDateTime::parse_from_str(s, fmt).ok().map(|t| LocalDateTime {
        date: CalendarDate { year: t.year(), month: t.month(), day: t.day() },
        hour: t.hour(),
        minute: t.minute(),
        second: t.second(),
    })
}

/// Relies on `chrono::NaiveDate::parse_from_str`: the result depends on the
/// text and the format alone, and a date that it returns exists.
#[verifier::external_body]
fn parse_date(s: &str, fmt: &str) -> (r: Option<CalendarDate>)
    ensures
        r == parsed_date(s@, fmt@),
        r matches Some(d) ==> (1 <= d.month <= 12 && 1 <= d.day <= days_in_month(
            d.year as int,
            d.month as int,
        )),
{
    chrono::NaiveDate::parse_from_str(s, fmt).ok().map(|d| CalendarDate {
        year: d.year(),
        month: d.month(),
        day: d.day(),
    })
}

/// Relies on `chrono::NaiveDateTime::format` with `%Y%m%dT%H%M%S`: the year
/// zero-padded to four digits (it has at most four here), every other field
/// to two.
#[verifier::external_body]
fn format_date_time(t: &LocalDateTime) -> (r: String)
    requires
        valid_date_time(*t),
    ensures
        r@ == local_text(*t),
{
    chrono::NaiveDate::from_ymd_opt(t.date.year, t.date.month, t.date.day)
        .unwrap()
        .and_hms_opt(t.hour, t.minute, t.second)
        .unwrap()
        .format("%Y%m%dT%H%M%S")
        .to_string()
}

/// Relies on `chrono::NaiveDate::format` with `%Y%m%d`: the year zero-padded
/// to four digits (it has at most four here), month and day to two.
#[verifier::external_body]
fn format_date(d: &CalendarDate) -> (r: String)
    requires
        valid_date(*d),
    ensures
        r@ == date_text(*d),
{
    chrono::NaiveDate::from_ymd_opt(d.year, d.month, d.day).unwrap().format("%Y%m%d").to_string()
}

pub open spec fn local_format() -> Seq<char> {
    seq!['%', 'Y', '%', 'm', '%', 'd', 'T', '%', 'H', '%', 'M', '%', 'S']
}

pub open spec fn utc_format() -> Seq<char> {
    local_format() + seq!['Z']
}

pub open spec fn date_format() -> Seq<char> {
    seq!['%', 'Y', '%', 'm', '%', 'd']
}

proof fn lemma_formats()
    ensures
        "%Y%m%dT%H%M%S"@ == local_format(),
        "%Y%m%dT%H%M%SZ"@ == utc_format(),
        "%Y%m%d"@ == date_format(),
{
    reveal_strlit("%Y%m%dT%H%M%S");
    reveal_strlit("%Y%m%dT%H%M%SZ");
    reveal_strlit("%Y%m%d");
    assert("%Y%m%dT%H%M%S"@ =~= local_format());
    assert("%Y%m%dT%H%M%SZ"@ =~= utc_format());
    assert("%Y%m%d"@ =~= date_format());
}

impl CalendarDate {
    /// The date with these fields, where it exists and its year has four
    /// digits.
    pub fn from_ymd_opt(year: i32, month: u32, day: u32) -> (r: Option<CalendarDate>)
        ensures
            match r {
                Some(d) => d == (CalendarDate { year, month, day }) && valid_date(d),
                None => !valid_date(CalendarDate { year, month, day }),
            },
    {
        if year < 0 || year > 9999 || month < 1 || month > 12 || day < 1 {
            return None;
        }
        let leap = (year % 4 == 0 && year % 100 != 0) || year % 400 == 0;
        let days: u32 = if month == 2 {
            if leap {
                29
            } else {
                28
            }
        } else if month == 4 || month == 6 || month == 9 || month == 11 {
            30
        } else {
            31
        };
        if day > days {
            None
        } else {
            Some(CalendarDate { year, month, day })
        }
    }

    /// This date with a time of day, where the time exists.
    pub fn and_hms_opt(self, hour: u32, minute: u32, second: u32) -> (r: Option<LocalDateTime>)
        ensures
            match r {
                Some(t) => t == (LocalDateTime { date: self, hour, minute, second }) && hour < 24
                    && minute < 60 && second < 60,
                None => !(hour < 24 && minute < 60 && second < 60),
            },
    {
        if hour < 24 && minute < 60 && second < 60 {
            Some(LocalDateTime { date: self, hour, minute, second })
        } else {
            None
        }
    }
}

impl LocalDateTime {
    /// The date-time with these fields, where it exists and its year has
    /// four digits.
    pub fn new(year: i32, month: u32, day: u32, hour: u32, minute: u32, second: u32) -> (r: Option<LocalDateTime>)
        ensures
            match r {
                Some(t) => t == (LocalDateTime { date: CalendarDate { year, month, day }, hour, minute, second })
                    && valid_date_time(t),
                None => !valid_date_time(LocalDateTime { date: CalendarDate { year, month, day }, hour, minute, second }),
            },
    {
        let date = CalendarDate::from_ymd_opt(year, month, day);
        match date {
            Some(d) => {
                let r = d.and_hms_opt(hour, minute, second);
                proof {
                    assert(d == (CalendarDate { year, month, day }));
                }
                r
            },
            None => None,
        }
    }
}

/// A date-time as RFC 5545 writes it: floating (`FORM #1`, no zone) or in
/// UTC (`FORM #2`, with a `Z`). The third form, a local time with a time
/// zone reference, is not supported.
#[derive(Copy, Clone, Debug, PartialEq, Eq, Structural)]
pub enum CalendarDateTime {
    /// A date with local time, following whatever zone the reader is in.
    Floating(LocalDateTime),
    /// A date with UTC time.
    Utc(LocalDateTime),
}

/// The fields of a date-time, whichever its form.
pub open spec fn fields_of(t: CalendarDateTime) -> LocalDateTime {
    match t {
        CalendarDateTime::Floating(l) => l,
        CalendarDateTime::Utc(l) => l,
    }
}

/// A date-time as written.
pub open spec fn date_time_text(t: CalendarDateTime) -> Seq<char> {
    match t {
        CalendarDateTime::Floating(l) => local_text(l),
        CalendarDateTime::Utc(l) => local_text(l) + seq!['Z'],
    }
}

/// The date-time that a text stands for, given what the floating and the
/// UTC pattern made of it: the floating reading is tried first.
pub open spec fn chosen_date_time(local: Option<LocalDateTime>, utc: Option<LocalDateTime>) -> Option<CalendarDateTime> {
    match local {
        Some(l) => Some(CalendarDateTime::Floating(l)),
        None => match utc {
            Some(u) => Some(CalendarDateTime::Utc(u)),
            None => None,
        },
    }
}

/// Reads a UTC date-time, `YYYYMMDDTHHMMSSZ`.
pub fn parse_utc_date_time(s: &str) -> (r: Option<LocalDateTime>)
    ensures
        r == parsed_date_time(s@, utc_format()),
{
    proof {
        lemma_formats();
    }
    parse_date_time(s, "%Y%m%dT%H%M%SZ")
}

/// Writes a UTC date-time, `YYYYMMDDTHHMMSSZ`.
pub fn format_utc_date_time(t: LocalDateTime) -> (r: String)
    requires
        valid_date_time(t),
    ensures
        r@ == local_text(t) + seq!['Z'],
{
    let mut s = format_date_time(&t);
    s.push('Z');
    s
}

/// A date as a property: `YYYYMMDD`, marked `VALUE=DATE`.
pub fn naive_date_to_property(date: CalendarDate, key: &str) -> (r: Property)
    requires
        valid_date(date),
    ensures
        r@ == date_property(DatePerhapsTime::Date(date), key@),
{
    proof {
        reveal_strlit("DATE");
        assert("DATE"@ =~= seq!['D', 'A', 'T', 'E']);
    }
    let text = format_date(&date);
    let mut p = Property::new(key, text.as_str());
    p.append_parameter(Parameter::of_value_type(ValueType::Date));
    proof {
        let e = (seq!['V', 'A', 'L', 'U', 'E'], seq!['D', 'A', 'T', 'E']);
        assert(key_index(Seq::<(Seq<char>, Seq<char>)>::empty(), e.0) == -1);
        assert(insert_keyed(Seq::<(Seq<char>, Seq<char>)>::empty(), e) =~= seq![e]);
        assert(p@.params =~= date_property(DatePerhapsTime::Date(date), key@).params);
    }
    p
}

impl CalendarDateTime {
    /// The date-time that `s` stands for, given what the floating and the
    /// UTC pattern made of it: the floating reading wins where both exist.
    pub fn from_parsed(local: Option<LocalDateTime>, utc: Option<LocalDateTime>) -> (r: Option<CalendarDateTime>)
        ensures
            r == chosen_date_time(local, utc),
    {
        match local {
            Some(l) => Some(CalendarDateTime::Floating(l)),
            None => match utc {
                Some(u) => Some(CalendarDateTime::Utc(u)),
                None => None,
            },
        }
    }

    /// Reads a date-time: first as floating, `YYYYMMDDTHHMMSS`; failing that
    /// as UTC, `YYYYMMDDTHHMMSSZ`.
    pub fn from_str(s: &str) -> (r: Option<CalendarDateTime>)
        ensures
            r == chosen_date_time(parsed_date_time(s@, local_format()), parsed_date_time(s@, utc_format())),
    {
        proof {
            lemma_formats();
        }
        let local = parse_date_time(s, "%Y%m%dT%H%M%S");
        let utc = parse_date_time(s, "%Y%m%dT%H%M%SZ");
        CalendarDateTime::from_parsed(local, utc)
    }

    /// This date-time as RFC 5545 writes it.
    pub fn to_string(&self) -> (r: String)
        requires
            valid_date_time(fields_of(*self)),
        ensures
            r@ == date_time_text(*self),
    {
        match self {
            CalendarDateTime::Floating(l) => format_date_time(l),
            CalendarDateTime::Utc(l) => format_utc_date_time(*l),
        }
    }
}

/// A `DATE-TIME` or a `DATE`.
#[derive(Copy, Clone, Debug, PartialEq, Eq, Structural)]
pub enum DatePerhapsTime {
    /// A date-time.
    DateTime(CalendarDateTime),
    /// A date.
    Date(CalendarDate),
}

/// A value that can be written: a date or date-time that exists, with a
/// year of four digits.
pub open spec fn valid_date_perhaps_time(t: DatePerhapsTime) -> bool {
    match t {
        DatePerhapsTime::DateTime(dt) => valid_date_time(fields_of(dt)),
        DatePerhapsTime::Date(d) => valid_date(d),
    }
}

/// What a property's value stands for: a date where its value type is
/// `DATE`, else a date-time.
pub open spec fn date_of_property(p: PropertyView) -> Option<DatePerhapsTime> {
    if resolved_type(p) == Some(ValueType::Date) {
        match parsed_date(p.value, date_format()) {
            Some(d) => Some(DatePerhapsTime::Date(d)),
            None => None,
        }
    } else {
        match chosen_date_time(parsed_date_time(p.value, local_format()), parsed_date_time(p.value, utc_format())) {
            Some(t) => Some(DatePerhapsTime::DateTime(t)),
            None => None,
        }
    }
}

/// The property that a date or date-time is written as: its text, and for
/// a date the parameter `VALUE=DATE`.
pub open spec fn date_property(t: DatePerhapsTime, key: Seq<char>) -> PropertyView {
    match t {
        DatePerhapsTime::DateTime(dt) => PropertyView { key, value: date_time_text(dt), params: Seq::empty() },
        DatePerhapsTime::Date(d) => PropertyView {
            key,
            value: date_text(d),
            params: seq![(seq!['V', 'A', 'L', 'U', 'E'], seq!['D', 'A', 'T', 'E'])],
        },
    }
}

impl DatePerhapsTime {
    /// Reads a property's value as a date (where its value type is `DATE`)
    /// or as a date-time.
    pub fn from_property(property: &Property) -> (r: Option<DatePerhapsTime>)
        ensures
            r == date_of_property(property@),
    {
        proof {
            lemma_formats();
        }
        if let Some(ValueType::Date) = property.value_type() {
            match parse_date(property.value(), "%Y%m%d") {
                Some(d) => Some(DatePerhapsTime::Date(d)),
                None => None,
            }
        } else {
            match CalendarDateTime::from_str(property.value()) {
                Some(t) => Some(DatePerhapsTime::DateTime(t)),
                None => None,
            }
        }
    }

    /// The property with key `key` that holds this value.
    pub fn to_property(self, key: &str) -> (r: Property)
        requires
            valid_date_perhaps_time(self),
        ensures
            r@ == date_property(self, key@),
    {
        match self {
            DatePerhapsTime::DateTime(t) => {
                let text = t.to_string();
                Property::new(key, text.as_str())
            },
            DatePerhapsTime::Date(d) => naive_date_to_property(d, key),
        }
    }
}

} // verus!
