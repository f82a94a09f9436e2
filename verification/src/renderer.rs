//! The resolver: turns a [`DateTimeSpec`] plus two baseline timestamps
//! into a concrete calendar value.
//!
//! Resolution is specified by [`spec_render`] and its helpers; the
//! executable [`render`] is proved to return exactly that value.  Where
//! the arithmetic would leave the supported calendar range — a year
//! outside 1 through 9999, a clock value out of range, or a rolled date
//! that does not exist — resolution fails with
//! [`OrgModeDateTimeError::TryFromIntError`] rather than clamping; a
//! month offset that lands on a missing day fails with the matching
//! unrepresentable-date error.
use vstd::prelude::*;

use crate::calendar::{
    date_add_days, date_sub_days, dt_lt, iso_ywd_to_date, shift_hours, spec_date_add_days,
    spec_date_sub_days, spec_dt_lt, spec_iso_ywd_date, spec_shift_hours, valid_date,
    weekday_of_date, weekday_of_date_exec, Date, DateTime, Time,
};
use crate::error::OrgModeDateTimeError;
use crate::laws::{lemma_render_ok_wf, rendered_wf};
use crate::model::{Absolute, AbsoluteTime, DateTimeSpec, Meridiem, Relative, RelativeTime};

verus! {

/// A resolved value: a date, a date with a time, an echoed week number,
/// or a clock-time range.
#[derive(Clone, Copy, Debug, PartialEq, Eq)]
pub enum RenderedSpec {
    Date(Date),
    DateTime(DateTime),
    Week(u32),
    TimeRange(Time, Time),
}

/// AM, or no marker, leaves the literal hour unchanged; PM adds 12
/// unconditionally.
pub open spec fn spec_apply_meridiem(hour: u32, meridiem: Option<Meridiem>) -> int {
    match meridiem {
        Some(Meridiem::PM) => hour + 12,
        _ => hour as int,
    }
}

/// AM, or no marker, leaves the literal hour unchanged; PM adds 12
/// unconditionally.
pub fn apply_meridiem(hour: u32, meridiem: Option<Meridiem>) -> (r: u32)
    requires
        hour + 12 <= u32::MAX,
    ensures
        r == spec_apply_meridiem(hour, meridiem),
{
    match meridiem {
        Some(Meridiem::PM) => hour + 12,
        _ => hour,
    }
}

/// A clock-time endpoint: the meridiem rule applied to the hour, minute
/// defaulting to 0.  `None` where the resulting clock values are out of
/// range.
pub open spec fn spec_clock_time(hour: u32, minute: Option<u32>, meridiem: Option<
    Meridiem,
>) -> Option<Time> {
    let h = spec_apply_meridiem(hour, meridiem);
    let mi: int = match minute {
        Some(m) => m as int,
        None => 0,
    };
    if h <= 23 && mi <= 59 {
        Some(Time { hour: h as u32, minute: mi as u32, second: 0 })
    } else {
        None
    }
}

/// Resolution of a time range with two absolute endpoints.
pub open spec fn spec_render_time_range_abs(start: AbsoluteTime, end: AbsoluteTime) -> Result<
    RenderedSpec,
    OrgModeDateTimeError,
> {
    match (start.hour, end.hour) {
        (Some(sh), Some(eh)) => {
            match spec_clock_time(sh, start.minute, start.meridiem) {
                None => Err(OrgModeDateTimeError::TryFromIntError),
                Some(st) => match spec_clock_time(eh, end.minute, end.meridiem) {
                    None => Err(OrgModeDateTimeError::TryFromIntError),
                    Some(et) => Ok(RenderedSpec::TimeRange(st, et)),
                },
            }
        },
        _ => Err(OrgModeDateTimeError::TryFromIntError),
    }
}

/// Resolution of a time range given as a start plus a duration; the end
/// wraps around midnight.
pub open spec fn spec_render_time_range_rel(start: AbsoluteTime, dur: RelativeTime) -> Result<
    RenderedSpec,
    OrgModeDateTimeError,
> {
    match (start.hour, dur.hours) {
        (Some(sh), Some(dh)) => {
            match spec_clock_time(sh, start.minute, start.meridiem) {
                None => Err(OrgModeDateTimeError::TryFromIntError),
                Some(st) => {
                    let dm: int = match dur.minutes {
                        Some(m) => m as int,
                        None => 0,
                    };
                    let total = (st.hour * 60 + st.minute + dh * 60 + dm) % 1440;
                    let et = Time {
                        hour: (total / 60) as u32,
                        minute: (total % 60) as u32,
                        second: 0,
                    };
                    Ok(RenderedSpec::TimeRange(st, et))
                },
            }
        },
        _ => Err(OrgModeDateTimeError::TryFromIntError),
    }
}

/// Resolution of an absolute partial specification against a baseline.
/// Exactly the seven populated-field shapes the grammar's date forms
/// produce resolve; every other combination — including a bare clock
/// time carrying an AM/PM marker — is rejected.
pub open spec fn spec_render_absolute(a: Absolute, baseline: DateTime) -> Result<
    RenderedSpec,
    OrgModeDateTimeError,
> {
    match a {
        Absolute {
            year: Some(year),
            month: Some(month),
            day: Some(day),
            week: None,
            weekday: None,
            hour: None,
            minute: None,
            meridiem: None,
        } => {
            let y: int = if year < 10 {
                baseline.date.year as int / 1000 * 1000 + year
            } else {
                year as int
            };
            if valid_date(y, month as int, day as int) {
                Ok(RenderedSpec::Date(Date { year: y as u32, month, day }))
            } else {
                Err(OrgModeDateTimeError::TryFromIntError)
            }
        },
        Absolute {
            year: None,
            month: None,
            day: Some(day),
            week: None,
            weekday: None,
            hour: None,
            minute: None,
            meridiem: None,
        } => {
            let by = baseline.date.year as int;
            let bm = baseline.date.month as int;
            if !valid_date(by, bm, day as int) {
                Err(OrgModeDateTimeError::TryFromIntError)
            } else if day >= baseline.date.day {
                Ok(RenderedSpec::Date(Date {
                    year: baseline.date.year,
                    month: baseline.date.month,
                    day,
                }))
            } else {
                let ny: int = if bm == 12 {
                    by + 1
                } else {
                    by
                };
                let nm: int = if bm == 12 {
                    1
                } else {
                    bm + 1
                };
                if valid_date(ny, nm, day as int) {
                    Ok(RenderedSpec::Date(Date { year: ny as u32, month: nm as u32, day }))
                } else {
                    Err(OrgModeDateTimeError::TryFromIntError)
                }
            }
        },
        Absolute {
            year: None,
            month: Some(month),
            day: Some(day),
            week: None,
            weekday: None,
            hour: None,
            minute: None,
            meridiem: None,
        } => {
            let by = baseline.date.year as int;
            if !valid_date(by, month as int, day as int) {
                Err(OrgModeDateTimeError::TryFromIntError)
            } else if !(month < baseline.date.month || (month == baseline.date.month && day
                < baseline.date.day)) {
                Ok(RenderedSpec::Date(Date { year: baseline.date.year, month, day }))
            } else {
                if valid_date(by + 1, month as int, day as int) {
                    Ok(RenderedSpec::Date(Date { year: (by + 1) as u32, month, day }))
                } else {
                    Err(OrgModeDateTimeError::TryFromIntError)
                }
            }
        },
        Absolute {
            year: None,
            month: None,
            day: None,
            week: None,
            weekday: None,
            hour: Some(hour),
            minute: Some(minute),
            meridiem: None,
        } => {
            if hour > 23 || minute > 59 {
                Err(OrgModeDateTimeError::TryFromIntError)
            } else {
                let cand = DateTime {
                    date: baseline.date,
                    time: Time { hour, minute, second: 0 },
                };
                if spec_dt_lt(cand, baseline) {
                    match spec_date_add_days(baseline.date, 1) {
                        Some(d2) => Ok(
                            RenderedSpec::DateTime(
                                DateTime { date: d2, time: Time { hour, minute, second: 0 } },
                            ),
                        ),
                        None => Err(OrgModeDateTimeError::TryFromIntError),
                    }
                } else {
                    Ok(RenderedSpec::DateTime(cand))
                }
            }
        },
        Absolute {
            year: None,
            month: None,
            day: None,
            week: None,
            weekday: Some(weekday),
            hour: None,
            minute: None,
            meridiem: None,
        } => {
            if !(1 <= weekday <= 7) {
                Err(OrgModeDateTimeError::TryFromIntError)
            } else {
                let bwd = weekday_of_date(
                    baseline.date.year as int,
                    baseline.date.month as int,
                    baseline.date.day as int,
                );
                let delta = (weekday + 7 - bwd) % 7;
                match spec_date_add_days(baseline.date, delta) {
                    Some(d2) => Ok(RenderedSpec::Date(d2)),
                    None => Err(OrgModeDateTimeError::TryFromIntError),
                }
            }
        },
        Absolute {
            year: None,
            month: Some(month),
            day: Some(day),
            week: None,
            weekday: None,
            hour: Some(hour),
            minute: Some(minute),
            meridiem: None,
        } => {
            let by = baseline.date.year as int;
            if hour > 23 || minute > 59 || !valid_date(by, month as int, day as int) {
                Err(OrgModeDateTimeError::TryFromIntError)
            } else {
                let cand = DateTime {
                    date: Date { year: baseline.date.year, month, day },
                    time: Time { hour, minute, second: 0 },
                };
                if spec_dt_lt(cand, baseline) {
                    if valid_date(by + 1, month as int, day as int) {
                        Ok(
                            RenderedSpec::DateTime(
                                DateTime {
                                    date: Date { year: (by + 1) as u32, month, day },
                                    time: Time { hour, minute, second: 0 },
                                },
                            ),
                        )
                    } else {
                        Err(OrgModeDateTimeError::TryFromIntError)
                    }
                } else {
                    Ok(RenderedSpec::DateTime(cand))
                }
            }
        },
        Absolute {
            year: None,
            month: None,
            day: None,
            week: Some(week),
            weekday: None,
            hour: None,
            minute: None,
            meridiem: None,
        } => Ok(RenderedSpec::Week(week)),
        Absolute {
            year: Some(year),
            month: None,
            day: None,
            week: Some(week),
            weekday: Some(weekday),
            hour: None,
            minute: None,
            meridiem: None,
        } => {
            match spec_iso_ywd_date(year as int, week as int, weekday as int) {
                Some(t) => Ok(
                    RenderedSpec::Date(
                        Date { year: t.0 as u32, month: t.1 as u32, day: t.2 as u32 },
                    ),
                ),
                None => Err(OrgModeDateTimeError::TryFromIntError),
            }
        },
        _ => Err(OrgModeDateTimeError::TryFromIntError),
    }
}

/// Resolution of a relative offset into the future of `baseline`.
/// Exactly the six populated-unit shapes the relative grammar produces
/// resolve, plus the all-unset "today" sentinel.
pub open spec fn spec_render_relative_future(rel: Relative, baseline: DateTime) -> Result<
    RenderedSpec,
    OrgModeDateTimeError,
> {
    match rel {
        Relative {
            hours: None,
            days: None,
            weeks: None,
            weekdays: None,
            months: None,
            years: None,
        }=> Ok(
            RenderedSpec::Date(baseline.date),
        ),
        Relative {
            hours: Some(hours),
            days: None,
            weeks: None,
            weekdays: None,
            months: None,
            years: None,
        } => {
            match spec_shift_hours(baseline, hours as int) {
                Some(t2) => Ok(RenderedSpec::DateTime(t2)),
                None => Err(OrgModeDateTimeError::TryFromIntError),
            }
        },
        Relative {
            hours: None,
            days: Some(days),
            weeks: None,
            weekdays: None,
            months: None,
            years: None,
        } => {
            match spec_date_add_days(baseline.date, days as int) {
                Some(d2) => Ok(RenderedSpec::Date(d2)),
                None => Err(OrgModeDateTimeError::TryFromIntError),
            }
        },
        Relative {
            hours: None,
            days: None,
            weeks: Some(weeks),
            weekdays: None,
            months: None,
            years: None,
        } => {
            match spec_date_add_days(baseline.date, weeks * 7) {
                Some(d2) => Ok(RenderedSpec::Date(d2)),
                None => Err(OrgModeDateTimeError::TryFromIntError),
            }
        },
        Relative {
            hours: None,
            days: None,
            weeks,
            weekdays: Some(weekdays),
            months: None,
            years: None,
        } => {
            if !(1 <= weekdays <= 7) {
                Err(OrgModeDateTimeError::TryFromIntError)
            } else {
                let bwd = weekday_of_date(
                    baseline.date.year as int,
                    baseline.date.month as int,
                    baseline.date.day as int,
                );
                let delta = (weekdays + 7 - bwd) % 7;
                let nweeks: int = match weeks {
                    Some(w) => w as int,
                    None => 1,
                };
                match spec_date_add_days(baseline.date, delta + nweeks * 7) {
                    Some(d2) => Ok(RenderedSpec::Date(d2)),
                    None => Err(OrgModeDateTimeError::TryFromIntError),
                }
            }
        },
        Relative {
            hours: None,
            days: None,
            weeks: None,
            weekdays: None,
            months: Some(months),
            years: None,
        } => {
            let m0 = months as int % 12;
            let cm0 = baseline.date.month as int - 1 + m0;
            let ny: int = if cm0 > 11 {
                baseline.date.year + 1
            } else {
                baseline.date.year as int
            };
            let nm: int = if cm0 > 11 {
                cm0 % 12 + 1
            } else {
                cm0 + 1
            };
            if ny > 9999 {
                Err(OrgModeDateTimeError::TryFromIntError)
            } else if valid_date(ny, nm, baseline.date.day as int) {
                Ok(
                    RenderedSpec::Date(
                        Date { year: ny as u32, month: nm as u32, day: baseline.date.day },
                    ),
                )
            } else {
                Err(OrgModeDateTimeError::UnrepresentableFutureRelativeDate(rel))
            }
        },
        Relative {
            hours: None,
            days: None,
            weeks: None,
            weekdays: None,
            months: None,
            years: Some(years),
        } => {
            let ny = baseline.date.year + years;
            if ny > 9999 {
                Err(OrgModeDateTimeError::TryFromIntError)
            } else if valid_date(ny as int, baseline.date.month as int, baseline.date.day as int) {
                Ok(
                    RenderedSpec::Date(
                        Date {
                            year: ny as u32,
                            month: baseline.date.month,
                            day: baseline.date.day,
                        },
                    ),
                )
            } else {
                Err(OrgModeDateTimeError::TryFromIntError)
            }
        },
        _ => Err(OrgModeDateTimeError::TryFromIntError),
    }
}

/// Resolution of a relative offset into the past of `baseline`, the
/// mirror of the future rules.  A weekday walk steps backward to the
/// matching weekday and then subtracts (repeat count − 1) further weeks;
/// a repeat count of zero cannot be mirrored and is rejected.
pub open spec fn spec_render_relative_past(rel: Relative, baseline: DateTime) -> Result<
    RenderedSpec,
    OrgModeDateTimeError,
> {
    match rel {
        Relative {
            hours: None,
            days: None,
            weeks: None,
            weekdays: None,
            months: None,
            years: None,
        }=> Ok(
            RenderedSpec::Date(baseline.date),
        ),
        Relative {
            hours: Some(hours),
            days: None,
            weeks: None,
            weekdays: None,
            months: None,
            years: None,
        } => {
            match spec_shift_hours(baseline, -(hours as int)) {
                Some(t2) => Ok(RenderedSpec::DateTime(t2)),
                None => Err(OrgModeDateTimeError::TryFromIntError),
            }
        },
        Relative {
            hours: None,
            days: Some(days),
            weeks: None,
            weekdays: None,
            months: None,
            years: None,
        } => {
            match spec_date_sub_days(baseline.date, days as int) {
                Some(d2) => Ok(RenderedSpec::Date(d2)),
                None => Err(OrgModeDateTimeError::TryFromIntError),
            }
        },
        Relative {
            hours: None,
            days: None,
            weeks: Some(weeks),
            weekdays: None,
            months: None,
            years: None,
        } => {
            match spec_date_sub_days(baseline.date, weeks * 7) {
                Some(d2) => Ok(RenderedSpec::Date(d2)),
                None => Err(OrgModeDateTimeError::TryFromIntError),
            }
        },
        Relative {
            hours: None,
            days: None,
            weeks,
            weekdays: Some(weekdays),
            months: None,
            years: None,
        } => {
            if !(1 <= weekdays <= 7) || weeks == Some(0u32) {
                Err(OrgModeDateTimeError::TryFromIntError)
            } else {
                let bwd = weekday_of_date(
                    baseline.date.year as int,
                    baseline.date.month as int,
                    baseline.date.day as int,
                );
                let delta = (bwd + 7 - weekdays) % 7;
                let nweeks: int = match weeks {
                    Some(w) => w - 1,
                    None => 0,
                };
                match spec_date_sub_days(baseline.date, delta + nweeks * 7) {
                    Some(d2) => Ok(RenderedSpec::Date(d2)),
                    None => Err(OrgModeDateTimeError::TryFromIntError),
                }
            }
        },
        Relative {
            hours: None,
            days: None,
            weeks: None,
            weekdays: None,
            months: Some(months),
            years: None,
        } => {
            let m0 = months as int % 12;
            let cm0 = baseline.date.month as int - 1 - m0;
            let ny: int = if cm0 < 0 {
                baseline.date.year - 1
            } else {
                baseline.date.year as int
            };
            let nm: int = if cm0 < 0 {
                cm0 + 13
            } else {
                cm0 + 1
            };
            if ny < 1 {
                Err(OrgModeDateTimeError::TryFromIntError)
            } else if valid_date(ny, nm, baseline.date.day as int) {
                Ok(
                    RenderedSpec::Date(
                        Date { year: ny as u32, month: nm as u32, day: baseline.date.day },
                    ),
                )
            } else {
                Err(OrgModeDateTimeError::UnrepresentablePastRelativeDate(rel))
            }
        },
        Relative {
            hours: None,
            days: None,
            weeks: None,
            weekdays: None,
            months: None,
            years: Some(years),
        } => {
            let ny = baseline.date.year - years;
            if ny < 1 {
                Err(OrgModeDateTimeError::TryFromIntError)
            } else if valid_date(ny, baseline.date.month as int, baseline.date.day as int) {
                Ok(
                    RenderedSpec::Date(
                        Date {
                            year: ny as u32,
                            month: baseline.date.month,
                            day: baseline.date.day,
                        },
                    ),
                )
            } else {
                Err(OrgModeDateTimeError::TryFromIntError)
            }
        },
        _ => Err(OrgModeDateTimeError::TryFromIntError),
    }
}

/// Full resolution: absolute and now-relative shapes resolve against the
/// `now` baseline, default-relative shapes against the `default`
/// baseline, and time ranges against neither.
pub open spec fn spec_render(default: DateTime, now: DateTime, spec: DateTimeSpec) -> Result<
    RenderedSpec,
    OrgModeDateTimeError,
> {
    match spec {
        DateTimeSpec::Absolute(a) => spec_render_absolute(a, now),
        DateTimeSpec::NowRelativeFuture(rel) => spec_render_relative_future(rel, now),
        DateTimeSpec::NowRelativePast(rel) => spec_render_relative_past(rel, now),
        DateTimeSpec::DefaultRelativeFuture(rel) => spec_render_relative_future(rel, default),
        DateTimeSpec::DefaultRelativePast(rel) => spec_render_relative_past(rel, default),
        DateTimeSpec::TimeRangeAbsoluteStartAbsoluteEnd(start, end) => spec_render_time_range_abs(
            start,
            end,
        ),
        DateTimeSpec::TimeRangeAbsoluteStartRelativeEnd(start, dur) => spec_render_time_range_rel(
            start,
            dur,
        ),
    }
}

/// A clock-time endpoint, per the meridiem rule.
fn clock_time(hour: u32, minute: Option<u32>, meridiem: Option<Meridiem>) -> (r: Option<Time>)
    ensures
        r == spec_clock_time(hour, minute, meridiem),
{
    if hour > 23 {
        return None;
    }
    let h = apply_meridiem(hour, meridiem);
    let mi = match minute {
        Some(m) => m,
        None => 0,
    };
    if h <= 23 && mi <= 59 {
        Some(Time { hour: h, minute: mi, second: 0 })
    } else {
        None
    }
}

fn render_time_range_abs(start: AbsoluteTime, end: AbsoluteTime) -> (r: Result<
    RenderedSpec,
    OrgModeDateTimeError,
>)
    ensures
        r == spec_render_time_range_abs(start, end),
{
    match (start.hour, end.hour) {
        (Some(sh), Some(eh)) => {
            match clock_time(sh, start.minute, start.meridiem) {
                None => Err(OrgModeDateTimeError::TryFromIntError),
                Some(st) => match clock_time(eh, end.minute, end.meridiem) {
                    None => Err(OrgModeDateTimeError::TryFromIntError),
                    Some(et) => Ok(RenderedSpec::TimeRange(st, et)),
                },
            }
        },
        _ => Err(OrgModeDateTimeError::TryFromIntError),
    }
}

fn render_time_range_rel(start: AbsoluteTime, dur: RelativeTime) -> (r: Result<
    RenderedSpec,
    OrgModeDateTimeError,
>)
    ensures
        r == spec_render_time_range_rel(start, dur),
{
    match (start.hour, dur.hours) {
        (Some(sh), Some(dh)) => {
            match clock_time(sh, start.minute, start.meridiem) {
                None => Err(OrgModeDateTimeError::TryFromIntError),
                Some(st) => {
                    let dm: u32 = match dur.minutes {
                        Some(m) => m,
                        None => 0,
                    };
                    let total: u64 = (st.hour as u64 * 60 + st.minute as u64 + dh as u64 * 60
                        + dm as u64) % 1440;
                    let et = Time {
                        hour: (total / 60) as u32,
                        minute: (total % 60) as u32,
                        second: 0,
                    };
                    Ok(RenderedSpec::TimeRange(st, et))
                },
            }
        },
        _ => Err(OrgModeDateTimeError::TryFromIntError),
    }
}

fn render_absolute(a: Absolute, baseline: DateTime) -> (r: Result<
    RenderedSpec,
    OrgModeDateTimeError,
>)
    requires
        baseline.wf(),
    ensures
        r == spec_render_absolute(a, baseline),
{
    match a {
        Absolute {
            year: Some(year),
            month: Some(month),
            day: Some(day),
            week: None,
            weekday: None,
            hour: None,
            minute: None,
            meridiem: None,
        } => {
            let y: u32 = if year < 10 {
                baseline.date.year / 1000 * 1000 + year
            } else {
                year
            };
            match Date::from_ymd(y, month, day) {
                Some(d) => Ok(RenderedSpec::Date(d)),
                None => Err(OrgModeDateTimeError::TryFromIntError),
            }
        },
        Absolute {
            year: None,
            month: None,
            day: Some(day),
            week: None,
            weekday: None,
            hour: None,
            minute: None,
            meridiem: None,
        } => {
            match Date::from_ymd(baseline.date.year, baseline.date.month, day) {
                None => Err(OrgModeDateTimeError::TryFromIntError),
                Some(cand) => {
                    if day >= baseline.date.day {
                        Ok(RenderedSpec::Date(cand))
                    } else {
                        let ny: u32 = if baseline.date.month == 12 {
                            baseline.date.year + 1
                        } else {
                            baseline.date.year
                        };
                        let nm: u32 = if baseline.date.month == 12 {
                            1
                        } else {
                            baseline.date.month + 1
                        };
                        match Date::from_ymd(ny, nm, day) {
                            Some(d) => Ok(RenderedSpec::Date(d)),
                            None => Err(OrgModeDateTimeError::TryFromIntError),
                        }
                    }
                },
            }
        },
        Absolute {
            year: None,
            month: Some(month),
            day: Some(day),
            week: None,
            weekday: None,
            hour: None,
            minute: None,
            meridiem: None,
        } => {
            match Date::from_ymd(baseline.date.year, month, day) {
                None => Err(OrgModeDateTimeError::TryFromIntError),
                Some(cand) => {
                    if !(month < baseline.date.month || (month == baseline.date.month && day
                        < baseline.date.day)) {
                        Ok(RenderedSpec::Date(cand))
                    } else {
                        match Date::from_ymd(baseline.date.year + 1, month, day) {
                            Some(d) => Ok(RenderedSpec::Date(d)),
                            None => Err(OrgModeDateTimeError::TryFromIntError),
                        }
                    }
                },
            }
        },
        Absolute {
            year: None,
            month: None,
            day: None,
            week: None,
            weekday: None,
            hour: Some(hour),
            minute: Some(minute),
            meridiem: None,
        } => {
            if hour > 23 || minute > 59 {
                Err(OrgModeDateTimeError::TryFromIntError)
            } else {
                let cand = DateTime {
                    date: baseline.date,
                    time: Time { hour, minute, second: 0 },
                };
                if dt_lt(cand, baseline) {
                    match date_add_days(baseline.date, 1) {
                        Some(d2) => Ok(
                            RenderedSpec::DateTime(
                                DateTime { date: d2, time: Time { hour, minute, second: 0 } },
                            ),
                        ),
                        None => Err(OrgModeDateTimeError::TryFromIntError),
                    }
                } else {
                    Ok(RenderedSpec::DateTime(cand))
                }
            }
        },
        Absolute {
            year: None,
            month: None,
            day: None,
            week: None,
            weekday: Some(weekday),
            hour: None,
            minute: None,
            meridiem: None,
        } => {
            if !(1 <= weekday && weekday <= 7) {
                Err(OrgModeDateTimeError::TryFromIntError)
            } else {
                let bwd = weekday_of_date_exec(baseline.date);
                let delta = (weekday + 7 - bwd) % 7;
                match date_add_days(baseline.date, delta as u64) {
                    Some(d2) => Ok(RenderedSpec::Date(d2)),
                    None => Err(OrgModeDateTimeError::TryFromIntError),
                }
            }
        },
        Absolute {
            year: None,
            month: Some(month),
            day: Some(day),
            week: None,
            weekday: None,
            hour: Some(hour),
            minute: Some(minute),
            meridiem: None,
        } => {
            if hour > 23 || minute > 59 {
                return Err(OrgModeDateTimeError::TryFromIntError);
            }
            match Date::from_ymd(baseline.date.year, month, day) {
                None => Err(OrgModeDateTimeError::TryFromIntError),
                Some(cdate) => {
                    let cand = DateTime { date: cdate, time: Time { hour, minute, second: 0 } };
                    if dt_lt(cand, baseline) {
                        match Date::from_ymd(baseline.date.year + 1, month, day) {
                            Some(d2) => Ok(
                                RenderedSpec::DateTime(
                                    DateTime { date: d2, time: Time { hour, minute, second: 0 } },
                                ),
                            ),
                            None => Err(OrgModeDateTimeError::TryFromIntError),
                        }
                    } else {
                        Ok(RenderedSpec::DateTime(cand))
                    }
                },
            }
        },
        Absolute {
            year: None,
            month: None,
            day: None,
            week: Some(week),
            weekday: None,
            hour: None,
            minute: None,
            meridiem: None,
        } => Ok(RenderedSpec::Week(week)),
        Absolute {
            year: Some(year),
            month: None,
            day: None,
            week: Some(week),
            weekday: Some(weekday),
            hour: None,
            minute: None,
            meridiem: None,
        } => {
            match iso_ywd_to_date(year, week, weekday) {
                Some(d) => Ok(RenderedSpec::Date(d)),
                None => Err(OrgModeDateTimeError::TryFromIntError),
            }
        },
        _ => Err(OrgModeDateTimeError::TryFromIntError),
    }
}

fn render_relative_future(rel: Relative, baseline: DateTime) -> (r: Result<
    RenderedSpec,
    OrgModeDateTimeError,
>)
    requires
        baseline.wf(),
    ensures
        r == spec_render_relative_future(rel, baseline),
{
    match rel {
        Relative {
            hours: None,
            days: None,
            weeks: None,
            weekdays: None,
            months: None,
            years: None,
        }=> Ok(
            RenderedSpec::Date(baseline.date),
        ),
        Relative {
            hours: Some(hours),
            days: None,
            weeks: None,
            weekdays: None,
            months: None,
            years: None,
        } => {
            match shift_hours(baseline, hours, true) {
                Some(t2) => Ok(RenderedSpec::DateTime(t2)),
                None => Err(OrgModeDateTimeError::TryFromIntError),
            }
        },
        Relative {
            hours: None,
            days: Some(days),
            weeks: None,
            weekdays: None,
            months: None,
            years: None,
        } => {
            match date_add_days(baseline.date, days as u64) {
                Some(d2) => Ok(RenderedSpec::Date(d2)),
                None => Err(OrgModeDateTimeError::TryFromIntError),
            }
        },
        Relative {
            hours: None,
            days: None,
            weeks: Some(weeks),
            weekdays: None,
            months: None,
            years: None,
        } => {
            match date_add_days(baseline.date, weeks as u64 * 7) {
                Some(d2) => Ok(RenderedSpec::Date(d2)),
                None => Err(OrgModeDateTimeError::TryFromIntError),
            }
        },
        Relative {
            hours: None,
            days: None,
            weeks,
            weekdays: Some(weekdays),
            months: None,
            years: None,
        } => {
            if !(1 <= weekdays && weekdays <= 7) {
                Err(OrgModeDateTimeError::TryFromIntError)
            } else {
                let bwd = weekday_of_date_exec(baseline.date);
                let delta = (weekdays + 7 - bwd) % 7;
                let nweeks: u32 = match weeks {
                    Some(w) => w,
                    None => 1,
                };
                match date_add_days(baseline.date, delta as u64 + nweeks as u64 * 7) {
                    Some(d2) => Ok(RenderedSpec::Date(d2)),
                    None => Err(OrgModeDateTimeError::TryFromIntError),
                }
            }
        },
        Relative {
            hours: None,
            days: None,
            weeks: None,
            weekdays: None,
            months: Some(months),
            years: None,
        } => {
            let m0 = months % 12;
            let cm0 = baseline.date.month - 1 + m0;
            let ny: u32 = if cm0 > 11 {
                baseline.date.year + 1
            } else {
                baseline.date.year
            };
            let nm: u32 = if cm0 > 11 {
                cm0 % 12 + 1
            } else {
                cm0 + 1
            };
            if ny > 9999 {
                Err(OrgModeDateTimeError::TryFromIntError)
            } else {
                match Date::from_ymd(ny, nm, baseline.date.day) {
                    Some(d2) => Ok(RenderedSpec::Date(d2)),
                    None => Err(OrgModeDateTimeError::UnrepresentableFutureRelativeDate(rel)),
                }
            }
        },
        Relative {
            hours: None,
            days: None,
            weeks: None,
            weekdays: None,
            months: None,
            years: Some(years),
        } => {
            if years > 9999 || baseline.date.year + years > 9999 {
                Err(OrgModeDateTimeError::TryFromIntError)
            } else {
                match Date::from_ymd(
                    baseline.date.year + years,
                    baseline.date.month,
                    baseline.date.day,
                ) {
                    Some(d2) => Ok(RenderedSpec::Date(d2)),
                    None => Err(OrgModeDateTimeError::TryFromIntError),
                }
            }
        },
        _ => Err(OrgModeDateTimeError::TryFromIntError),
    }
}

fn render_relative_past(rel: Relative, baseline: DateTime) -> (r: Result<
    RenderedSpec,
    OrgModeDateTimeError,
>)
    requires
        baseline.wf(),
    ensures
        r == spec_render_relative_past(rel, baseline),
{
    match rel {
        Relative {
            hours: None,
            days: None,
            weeks: None,
            weekdays: None,
            months: None,
            years: None,
        }=> Ok(
            RenderedSpec::Date(baseline.date),
        ),
        Relative {
            hours: Some(hours),
            days: None,
            weeks: None,
            weekdays: None,
            months: None,
            years: None,
        } => {
            match shift_hours(baseline, hours, false) {
                Some(t2) => Ok(RenderedSpec::DateTime(t2)),
                None => Err(OrgModeDateTimeError::TryFromIntError),
            }
        },
        Relative {
            hours: None,
            days: Some(days),
            weeks: None,
            weekdays: None,
            months: None,
            years: None,
        } => {
            match date_sub_days(baseline.date, days as u64) {
                Some(d2) => Ok(RenderedSpec::Date(d2)),
                None => Err(OrgModeDateTimeError::TryFromIntError),
            }
        },
        Relative {
            hours: None,
            days: None,
            weeks: Some(weeks),
            weekdays: None,
            months: None,
            years: None,
        } => {
            match date_sub_days(baseline.date, weeks as u64 * 7) {
                Some(d2) => Ok(RenderedSpec::Date(d2)),
                None => Err(OrgModeDateTimeError::TryFromIntError),
            }
        },
        Relative {
            hours: None,
            days: None,
            weeks,
            weekdays: Some(weekdays),
            months: None,
            years: None,
        } => {
            let weeks_zero = match weeks {
                Some(w) => w == 0,
                None => false,
            };
            if !(1 <= weekdays && weekdays <= 7) || weeks_zero {
                Err(OrgModeDateTimeError::TryFromIntError)
            } else {
                let bwd = weekday_of_date_exec(baseline.date);
                let delta = (bwd + 7 - weekdays) % 7;
                let nweeks: u32 = match weeks {
                    Some(w) => w - 1,
                    None => 0,
                };
                match date_sub_days(baseline.date, delta as u64 + nweeks as u64 * 7) {
                    Some(d2) => Ok(RenderedSpec::Date(d2)),
                    None => Err(OrgModeDateTimeError::TryFromIntError),
                }
            }
        },
        Relative {
            hours: None,
            days: None,
            weeks: None,
            weekdays: None,
            months: Some(months),
            years: None,
        } => {
            let m0 = months % 12;
            let bm = baseline.date.month;
            let ny: u32 = if m0 >= bm {
                baseline.date.year - 1
            } else {
                baseline.date.year
            };
            let nm: u32 = if m0 >= bm {
                bm + 12 - m0
            } else {
                bm - m0
            };
            if ny < 1 {
                Err(OrgModeDateTimeError::TryFromIntError)
            } else {
                match Date::from_ymd(ny, nm, baseline.date.day) {
                    Some(d2) => Ok(RenderedSpec::Date(d2)),
                    None => Err(OrgModeDateTimeError::UnrepresentablePastRelativeDate(rel)),
                }
            }
        },
        Relative {
            hours: None,
            days: None,
            weeks: None,
            weekdays: None,
            months: None,
            years: Some(years),
        } => {
            if years >= baseline.date.year {
                Err(OrgModeDateTimeError::TryFromIntError)
            } else {
                match Date::from_ymd(
                    baseline.date.year - years,
                    baseline.date.month,
                    baseline.date.day,
                ) {
                    Some(d2) => Ok(RenderedSpec::Date(d2)),
                    None => Err(OrgModeDateTimeError::TryFromIntError),
                }
            }
        },
        _ => Err(OrgModeDateTimeError::TryFromIntError),
    }
}

/// Resolves a classified specification against the two baselines.
///
/// Absolute and now-relative shapes resolve against `now`,
/// default-relative shapes against `default`, and time ranges against
/// neither.  The result is exactly the value of [`spec_render`]: a
/// concrete date, datetime, echoed week number or time range, or a typed
/// failure.
pub fn render(default: DateTime, now: DateTime, spec: DateTimeSpec) -> (r: Result<
    RenderedSpec,
    OrgModeDateTimeError,
>)
    requires
        default.wf(),
        now.wf(),
    ensures
        r == spec_render(default, now, spec),
        r matches Ok(v) ==> rendered_wf(v),
{
    proof {
        lemma_render_ok_wf(default, now, spec);
    }
    match spec {
        DateTimeSpec::Absolute(a) => render_absolute(a, now),
        DateTimeSpec::NowRelativeFuture(rel) => render_relative_future(rel, now),
        DateTimeSpec::NowRelativePast(rel) => render_relative_past(rel, now),
        DateTimeSpec::DefaultRelativeFuture(rel) => render_relative_future(rel, default),
        DateTimeSpec::DefaultRelativePast(rel) => render_relative_past(rel, default),
        DateTimeSpec::TimeRangeAbsoluteStartAbsoluteEnd(start, end) => render_time_range_abs(
            start,
            end,
        ),
        DateTimeSpec::TimeRangeAbsoluteStartRelativeEnd(start, dur) => render_time_range_rel(
            start,
            dur,
        ),
    }
}

} // verus!
