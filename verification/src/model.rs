//! The partial-specification data model produced by classification.
//!
//! A parsed fragment is one of the [`DateTimeSpec`] shapes: an absolute
//! (possibly partial) date/time, a relative offset against one of the two
//! baselines, or a time range.  All values are plain records of optional
//! unsigned fields; the resolver gives them meaning.
use vstd::prelude::*;

verus! {

/// AM/PM marker disambiguating a 12-hour clock hour.
#[derive(Clone, Copy, Debug, PartialEq, Eq)]
pub enum Meridiem {
    AM,
    PM,
}

/// A day of the week, as recognised by the grammar's weekday names.
#[derive(Clone, Copy, Debug, PartialEq, Eq)]
pub enum Weekday {
    Mon,
    Tue,
    Wed,
    Thu,
    Fri,
    Sat,
    Sun,
}

impl Weekday {
    /// Numeric code of the weekday, 1 for Monday through 7 for Sunday.
    pub open spec fn spec_number_from_monday(self) -> u32 {
        match self {
            Weekday::Mon => 1,
            Weekday::Tue => 2,
            Weekday::Wed => 3,
            Weekday::Thu => 4,
            Weekday::Fri => 5,
            Weekday::Sat => 6,
            Weekday::Sun => 7,
        }
    }

    /// Numeric code of the weekday, 1 for Monday through 7 for Sunday.
    pub fn number_from_monday(self) -> (r: u32)
        ensures
            r == self.spec_number_from_monday(),
    {
        match self {
            Weekday::Mon => 1,
            Weekday::Tue => 2,
            Weekday::Wed => 3,
            Weekday::Thu => 4,
            Weekday::Fri => 5,
            Weekday::Sat => 6,
            Weekday::Sun => 7,
        }
    }
}

/// A month of the year, as recognised by the grammar's month names.
#[derive(Clone, Copy, Debug, PartialEq, Eq)]
pub enum Month {
    January,
    February,
    March,
    April,
    May,
    June,
    July,
    August,
    September,
    October,
    November,
    December,
}

impl Month {
    /// Numeric code of the month, 1 for January through 12 for December.
    pub open spec fn spec_number_from_month(self) -> u32 {
        match self {
            Month::January => 1,
            Month::February => 2,
            Month::March => 3,
            Month::April => 4,
            Month::May => 5,
            Month::June => 6,
            Month::July => 7,
            Month::August => 8,
            Month::September => 9,
            Month::October => 10,
            Month::November => 11,
            Month::December => 12,
        }
    }

    /// Numeric code of the month, 1 for January through 12 for December.
    pub fn number_from_month(self) -> (r: u32)
        ensures
            r == self.spec_number_from_month(),
    {
        match self {
            Month::January => 1,
            Month::February => 2,
            Month::March => 3,
            Month::April => 4,
            Month::May => 5,
            Month::June => 6,
            Month::July => 7,
            Month::August => 8,
            Month::September => 9,
            Month::October => 10,
            Month::November => 11,
            Month::December => 12,
        }
    }
}

/// A partially specified absolute date and/or time of day.
#[derive(Clone, Copy, Debug, PartialEq, Eq, Default)]
pub struct Absolute {
    pub year: Option<u32>,
    pub month: Option<u32>,
    pub day: Option<u32>,
    pub week: Option<u32>,
    pub weekday: Option<u32>,
    pub hour: Option<u32>,
    pub minute: Option<u32>,
    pub meridiem: Option<Meridiem>,
}

/// A clock-of-day fragment: hour, optional minute, optional AM/PM marker.
#[derive(Clone, Copy, Debug, PartialEq, Eq, Default)]
pub struct AbsoluteTime {
    pub hour: Option<u32>,
    pub minute: Option<u32>,
    pub meridiem: Option<Meridiem>,
}

/// A relative offset: at most one unit family is populated, except that
/// weeks may accompany weekdays as a repeat count; the all-unset value is
/// the "today" sentinel.
#[derive(Clone, Copy, Debug, PartialEq, Eq, Default)]
pub struct Relative {
    pub hours: Option<u32>,
    pub days: Option<u32>,
    pub weeks: Option<u32>,
    pub weekdays: Option<u32>,
    pub months: Option<u32>,
    pub years: Option<u32>,
}

/// A clock-time duration: hours and minutes.
#[derive(Clone, Copy, Debug, PartialEq, Eq, Default)]
pub struct RelativeTime {
    pub hours: Option<u32>,
    pub minutes: Option<u32>,
}

/// The classification of a parsed fragment.
#[derive(Clone, Copy, Debug, PartialEq, Eq)]
pub enum DateTimeSpec {
    Absolute(Absolute),
    NowRelativeFuture(Relative),
    NowRelativePast(Relative),
    DefaultRelativeFuture(Relative),
    DefaultRelativePast(Relative),
    TimeRangeAbsoluteStartAbsoluteEnd(AbsoluteTime, AbsoluteTime),
    TimeRangeAbsoluteStartRelativeEnd(AbsoluteTime, RelativeTime),
}

} // verus!
