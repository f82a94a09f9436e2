//! Library-wide laws, stated and proved over the specification
//! functions that the public contracts use.
use vstd::prelude::*;

use crate::calendar::{
    date_to_dn, dn_to_date, lemma_date_add_days_wf, lemma_date_to_dn_in_range,
    lemma_date_to_dn_roundtrip, lemma_iso_ywd_date_wf, lemma_shift_hours_wf, DateTime,
};
use crate::error::OrgModeDateTimeError;
use crate::grammar::{
    is_suffix_of, spec_parse, spec_parse_day_optional_month_optional_hour_minute,
    spec_parse_duration, spec_parse_relative, spec_parse_time,
};
use crate::model::{Absolute, DateTimeSpec, Relative};
use crate::renderer::{
    spec_render, spec_render_absolute, spec_render_relative_future, spec_render_relative_past,
    RenderedSpec,
};

verus! {

/// A successful classification splits the input: the input text is the
/// consumed prefix followed, untouched, by the returned remainder.  In
/// particular, a fully consumed input leaves an empty remainder.
pub proof fn lemma_classified_remainder_splits_input(s: Seq<char>, rest: Seq<char>)
    requires
        is_suffix_of(rest, s),
    ensures
        exists|k: int| 0 <= k <= s.len() && s == s.take(k) + rest,
{
    let k = choose|k: int| 0 <= k <= s.len() && rest == s.skip(k);
    assert(s =~= s.take(k) + s.skip(k));
}

/// The "today" sentinel resolves to exactly the `now` baseline's
/// calendar date, with no time component and no drift: both the empty
/// relative offset (a lone `.`) and a zero-day offset (`+0`) yield it,
/// for every pair of baselines.
pub proof fn lemma_today_sentinel(default: DateTime, now: DateTime)
    requires
        default.wf(),
        now.wf(),
    ensures
        spec_render(
            default,
            now,
            DateTimeSpec::NowRelativeFuture(
                Relative {
                    hours: None,
                    days: None,
                    weeks: None,
                    weekdays: None,
                    months: None,
                    years: None,
                },
            ),
        ) == Ok::<RenderedSpec, OrgModeDateTimeError>(RenderedSpec::Date(now.date)),
        spec_render(
            default,
            now,
            DateTimeSpec::NowRelativeFuture(
                Relative {
                    hours: None,
                    days: Some(0u32),
                    weeks: None,
                    weekdays: None,
                    months: None,
                    years: None,
                },
            ),
        ) == Ok::<RenderedSpec, OrgModeDateTimeError>(RenderedSpec::Date(now.date)),
{
    let y = now.date.year as int;
    let m = now.date.month as int;
    let d = now.date.day as int;
    lemma_date_to_dn_in_range(y, m, d);
    lemma_date_to_dn_roundtrip(y, m, d);
    assert(dn_to_date(date_to_dn(y, m, d)) == Some((y, m, d)));
}

/// The populated-field shapes of [`Absolute`] that classification can
/// produce: the seven shapes the resolver defines, and a bare clock time
/// carrying an AM/PM marker.
pub open spec fn absolute_shape_ok(a: Absolute) -> bool {
    ||| a matches Absolute {
        year: Some(_),
        month: Some(_),
        day: Some(_),
        week: None,
        weekday: None,
        hour: None,
        minute: None,
        meridiem: None,
    }
    ||| a matches Absolute {
        year: None,
        month: None,
        day: Some(_),
        week: None,
        weekday: None,
        hour: None,
        minute: None,
        meridiem: None,
    }
    ||| a matches Absolute {
        year: None,
        month: Some(_),
        day: Some(_),
        week: None,
        weekday: None,
        hour: None,
        minute: None,
        meridiem: None,
    }
    ||| a matches Absolute {
        year: None,
        month: None,
        day: None,
        week: None,
        weekday: None,
        hour: Some(_),
        minute: Some(_),
        meridiem: None,
    }
    ||| a matches Absolute {
        year: None,
        month: None,
        day: None,
        week: None,
        weekday: Some(_),
        hour: None,
        minute: None,
        meridiem: None,
    }
    ||| a matches Absolute {
        year: None,
        month: Some(_),
        day: Some(_),
        week: None,
        weekday: None,
        hour: Some(_),
        minute: Some(_),
        meridiem: None,
    }
    ||| a matches Absolute {
        year: None,
        month: None,
        day: None,
        week: Some(_),
        weekday: None,
        hour: None,
        minute: None,
        meridiem: None,
    }
    ||| a matches Absolute {
        year: Some(_),
        month: None,
        day: None,
        week: Some(_),
        weekday: Some(_),
        hour: None,
        minute: None,
        meridiem: None,
    }
    ||| a matches Absolute {
        year: None,
        month: None,
        day: None,
        week: None,
        weekday: None,
        hour: Some(_),
        meridiem: Some(_),
        ..
    }
}

/// The populated-unit shapes of [`Relative`] that classification can
/// produce: the all-unset sentinel, one unit family alone, or a weekday
/// with an optional repeat count of weeks.
pub open spec fn relative_shape_ok(r: Relative) -> bool {
    ||| r matches Relative {
        hours: None,
        days: None,
        weeks: None,
        weekdays: None,
        months: None,
        years: None,
    }
    ||| r matches Relative {
        hours: Some(_),
        days: None,
        weeks: None,
        weekdays: None,
        months: None,
        years: None,
    }
    ||| r matches Relative {
        hours: None,
        days: Some(_),
        weeks: None,
        weekdays: None,
        months: None,
        years: None,
    }
    ||| r matches Relative {
        hours: None,
        days: None,
        weeks: Some(_),
        weekdays: None,
        months: None,
        years: None,
    }
    ||| r matches Relative {
        hours: None,
        days: None,
        weekdays: Some(_),
        months: None,
        years: None,
        ..
    }
    ||| r matches Relative {
        hours: None,
        days: None,
        weeks: None,
        weekdays: None,
        months: Some(_),
        years: None,
    }
    ||| r matches Relative {
        hours: None,
        days: None,
        weeks: None,
        weekdays: None,
        months: None,
        years: Some(_),
    }
}

/// The shape invariant over a whole classification: absolute and
/// relative parts carry only the documented field combinations, and both
/// endpoints of a time range carry an hour.
pub open spec fn classified_shape_ok(spec: DateTimeSpec) -> bool {
    match spec {
        DateTimeSpec::Absolute(a) => absolute_shape_ok(a),
        DateTimeSpec::NowRelativeFuture(r) => relative_shape_ok(r),
        DateTimeSpec::NowRelativePast(r) => relative_shape_ok(r),
        DateTimeSpec::DefaultRelativeFuture(r) => relative_shape_ok(r),
        DateTimeSpec::DefaultRelativePast(r) => relative_shape_ok(r),
        DateTimeSpec::TimeRangeAbsoluteStartAbsoluteEnd(st, en) => st.hour is Some && en.hour
            is Some,
        DateTimeSpec::TimeRangeAbsoluteStartRelativeEnd(st, d) => st.hour is Some && d.hours
            is Some,
    }
}

proof fn lemma_relative_shapes(s: Seq<char>)
    ensures
        spec_parse_relative(s) matches Some(p) ==> relative_shape_ok(p.1),
{
}

proof fn lemma_time_shapes(s: Seq<char>)
    ensures
        spec_parse_time(s) matches Some(p) ==> p.1.hour is Some,
        spec_parse_duration(s) matches Some(p) ==> p.1.hours is Some,
{
}

proof fn lemma_bare_day_shapes(s: Seq<char>)
    ensures
        spec_parse_day_optional_month_optional_hour_minute(s) matches Some(p)
            ==> p.1 matches DateTimeSpec::Absolute(a) && absolute_shape_ok(a),
{
    lemma_time_shapes(s);
}

proof fn lemma_shape_dashed(s: Seq<char>)
    ensures
        crate::grammar::spec_parse_dashed_date(s) matches Some(p) ==> classified_shape_ok(p.1),
{
}

proof fn lemma_shape_slashed(s: Seq<char>)
    ensures
        crate::grammar::spec_parse_slashed_date(s) matches Some(p) ==> classified_shape_ok(p.1),
{
}

proof fn lemma_shape_iso_date(s: Seq<char>)
    ensures
        crate::grammar::spec_parse_iso_date(s) matches Some(p) ==> classified_shape_ok(p.1),
{
}

proof fn lemma_shape_weekday_form(s: Seq<char>)
    ensures
        crate::grammar::spec_parse_weekday(s) matches Some(p) ==> classified_shape_ok(p.1),
{
}

proof fn lemma_shape_month_day(s: Seq<char>)
    ensures
        crate::grammar::spec_parse_month_day_optional_year(s) matches Some(p) ==> classified_shape_ok(p.1),
{
}

proof fn lemma_shape_time_duration(s: Seq<char>)
    ensures
        crate::grammar::spec_parse_time_duration(s) matches Some(p) ==> classified_shape_ok(p.1),
{
    lemma_time_shapes(s);
    if let Some((s1, _st)) = spec_parse_time(s) {
        if let Some(s2) = crate::grammar::spec_tag(s1, "+"@) {
            lemma_time_shapes(s2);
        }
    }
}

proof fn lemma_shape_time_range(s: Seq<char>)
    ensures
        crate::grammar::spec_parse_time_range(s) matches Some(p) ==> classified_shape_ok(p.1),
{
    lemma_time_shapes(s);
    if let Some((s1, _st)) = spec_parse_time(s) {
        if let Some(s2) = crate::grammar::spec_tag(s1, "-"@) {
            lemma_time_shapes(s2);
            if let Some(s3) = crate::grammar::spec_tag(s2, "-"@) {
                lemma_time_shapes(s3);
            }
        }
    }
}

proof fn lemma_shape_bare_day(s: Seq<char>)
    ensures
        crate::grammar::spec_parse_day_optional_month_optional_hour_minute(s) matches Some(p) ==> classified_shape_ok(p.1),
{
    lemma_bare_day_shapes(s);
}

proof fn lemma_shape_week_number(s: Seq<char>)
    ensures
        crate::grammar::spec_parse_iso_week_number(s) matches Some(p) ==> classified_shape_ok(p.1),
{
}

proof fn lemma_shape_dot_plus(s: Seq<char>)
    ensures
        crate::grammar::spec_dot_plus_relative(s) matches Some(p) ==> classified_shape_ok(p.1),
{
    if let Some(s1) = crate::grammar::spec_tag(s, "."@) {
        if let Some(s2) = crate::grammar::spec_tag(s1, "+"@) {
            lemma_relative_shapes(s2);
        }
    }
}

proof fn lemma_shape_dot_minus(s: Seq<char>)
    ensures
        crate::grammar::spec_dot_minus_relative(s) matches Some(p) ==> classified_shape_ok(p.1),
{
    if let Some(s1) = crate::grammar::spec_tag(s, "."@) {
        if let Some(s2) = crate::grammar::spec_tag(s1, "-"@) {
            lemma_relative_shapes(s2);
        }
    }
}

proof fn lemma_shape_dot_only(s: Seq<char>)
    ensures
        crate::grammar::spec_dot_relative(s) matches Some(p) ==> classified_shape_ok(p.1),
{
}

proof fn lemma_shape_plus(s: Seq<char>)
    ensures
        crate::grammar::spec_plus_relative(s) matches Some(p) ==> classified_shape_ok(p.1),
{
    if let Some(s1) = crate::grammar::spec_tag(s, "+"@) {
        lemma_relative_shapes(s1);
    }
}

proof fn lemma_shape_minus(s: Seq<char>)
    ensures
        crate::grammar::spec_minus_relative(s) matches Some(p) ==> classified_shape_ok(p.1),
{
    if let Some(s1) = crate::grammar::spec_tag(s, "-"@) {
        lemma_relative_shapes(s1);
    }
}

proof fn lemma_shape_plus_plus(s: Seq<char>)
    ensures
        crate::grammar::spec_plus_plus_relative(s) matches Some(p) ==> classified_shape_ok(p.1),
{
    if let Some(s1) = crate::grammar::spec_tag(s, "++"@) {
        lemma_relative_shapes(s1);
    }
}

proof fn lemma_shape_minus_minus(s: Seq<char>)
    ensures
        crate::grammar::spec_minus_minus_relative(s) matches Some(p) ==> classified_shape_ok(p.1),
{
    if let Some(s1) = crate::grammar::spec_tag(s, "--"@) {
        lemma_relative_shapes(s1);
    }
}

/// Classification only ever constructs the documented partial shapes:
/// every value `spec_parse` returns satisfies [`classified_shape_ok`].
/// Field combinations outside that set are unreachable by construction.
pub proof fn lemma_classified_shapes(s: Seq<char>)
    ensures
        spec_parse(s) matches Some(p) ==> classified_shape_ok(p.1),
{
    lemma_shape_dashed(s);
    lemma_shape_slashed(s);
    lemma_shape_iso_date(s);
    lemma_shape_weekday_form(s);
    lemma_shape_month_day(s);
    lemma_shape_time_duration(s);
    lemma_shape_time_range(s);
    lemma_shape_bare_day(s);
    lemma_shape_week_number(s);
    lemma_shape_dot_plus(s);
    lemma_shape_dot_minus(s);
    lemma_shape_dot_only(s);
    lemma_shape_plus(s);
    lemma_shape_minus(s);
    lemma_shape_plus_plus(s);
    lemma_shape_minus_minus(s);
}


/// Every resolved value is itself well formed: dates name existing days
/// in the supported years, and clock values lie in range.
pub open spec fn rendered_wf(r: RenderedSpec) -> bool {
    match r {
        RenderedSpec::Date(d) => d.wf(),
        RenderedSpec::DateTime(t) => t.wf(),
        RenderedSpec::Week(_) => true,
        RenderedSpec::TimeRange(a, b) => a.wf() && b.wf(),
    }
}

proof fn lemma_absolute_ok_wf(a: Absolute, baseline: DateTime)
    requires
        baseline.wf(),
    ensures
        spec_render_absolute(a, baseline) matches Ok(v) ==> rendered_wf(v),
{
    lemma_date_add_days_wf(baseline.date, 1);
    if let Absolute {
        year: None,
        month: None,
        day: None,
        week: None,
        weekday: Some(weekday),
        hour: None,
        minute: None,
        meridiem: None,
    } = a {
        let bwd = crate::calendar::weekday_of_date(
            baseline.date.year as int,
            baseline.date.month as int,
            baseline.date.day as int,
        );
        lemma_date_add_days_wf(baseline.date, (weekday + 7 - bwd) % 7);
    }
    if let Absolute {
        year: Some(year),
        month: None,
        day: None,
        week: Some(week),
        weekday: Some(weekday),
        hour: None,
        minute: None,
        meridiem: None,
    } = a {
        lemma_iso_ywd_date_wf(year as int, week as int, weekday as int);
    }
}

proof fn lemma_relative_future_ok_wf(rel: Relative, baseline: DateTime)
    requires
        baseline.wf(),
    ensures
        spec_render_relative_future(rel, baseline) matches Ok(v) ==> rendered_wf(v),
{
    match rel {
        Relative {
            hours: Some(hours),
            days: None,
            weeks: None,
            weekdays: None,
            months: None,
            years: None,
        } => {
            lemma_shift_hours_wf(baseline, hours as int);
        },
        Relative {
            hours: None,
            days: Some(days),
            weeks: None,
            weekdays: None,
            months: None,
            years: None,
        } => {
            lemma_date_add_days_wf(baseline.date, days as int);
        },
        Relative {
            hours: None,
            days: None,
            weeks: Some(weeks),
            weekdays: None,
            months: None,
            years: None,
        } => {
            lemma_date_add_days_wf(baseline.date, weeks * 7);
        },
        Relative {
            hours: None,
            days: None,
            weeks,
            weekdays: Some(weekdays),
            months: None,
            years: None,
        } => {
            let bwd = crate::calendar::weekday_of_date(
                baseline.date.year as int,
                baseline.date.month as int,
                baseline.date.day as int,
            );
            let delta = (weekdays + 7 - bwd) % 7;
            let nweeks: int = match weeks {
                Some(w) => w as int,
                None => 1,
            };
            lemma_date_add_days_wf(baseline.date, delta + nweeks * 7);
        },
        _ => {},
    }
}

proof fn lemma_relative_past_ok_wf(rel: Relative, baseline: DateTime)
    requires
        baseline.wf(),
    ensures
        spec_render_relative_past(rel, baseline) matches Ok(v) ==> rendered_wf(v),
{
    match rel {
        Relative {
            hours: Some(hours),
            days: None,
            weeks: None,
            weekdays: None,
            months: None,
            years: None,
        } => {
            lemma_shift_hours_wf(baseline, -(hours as int));
        },
        Relative {
            hours: None,
            days: Some(days),
            weeks: None,
            weekdays: None,
            months: None,
            years: None,
        } => {
            lemma_date_add_days_wf(baseline.date, -(days as int));
        },
        Relative {
            hours: None,
            days: None,
            weeks: Some(weeks),
            weekdays: None,
            months: None,
            years: None,
        } => {
            lemma_date_add_days_wf(baseline.date, -(weeks * 7));
        },
        Relative {
            hours: None,
            days: None,
            weeks,
            weekdays: Some(weekdays),
            months: None,
            years: None,
        } => {
            let bwd = crate::calendar::weekday_of_date(
                baseline.date.year as int,
                baseline.date.month as int,
                baseline.date.day as int,
            );
            let delta = (bwd + 7 - weekdays) % 7;
            let nweeks: int = match weeks {
                Some(w) => w - 1,
                None => 0,
            };
            lemma_date_add_days_wf(baseline.date, -(delta + nweeks * 7));
        },
        _ => {},
    }
}

/// Whatever resolution returns with `Ok` is a well-formed calendar
/// value: its dates name existing days of the supported years and its
/// clock values lie in range.
pub proof fn lemma_render_ok_wf(default: DateTime, now: DateTime, spec: DateTimeSpec)
    requires
        default.wf(),
        now.wf(),
    ensures
        spec_render(default, now, spec) matches Ok(v) ==> rendered_wf(v),
{
    match spec {
        DateTimeSpec::Absolute(a) => lemma_absolute_ok_wf(a, now),
        DateTimeSpec::NowRelativeFuture(rel) => lemma_relative_future_ok_wf(rel, now),
        DateTimeSpec::NowRelativePast(rel) => lemma_relative_past_ok_wf(rel, now),
        DateTimeSpec::DefaultRelativeFuture(rel) => lemma_relative_future_ok_wf(rel, default),
        DateTimeSpec::DefaultRelativePast(rel) => lemma_relative_past_ok_wf(rel, default),
        DateTimeSpec::TimeRangeAbsoluteStartAbsoluteEnd(_, _) => {},
        DateTimeSpec::TimeRangeAbsoluteStartRelativeEnd(_, _) => {},
    }
}

} // verus!
