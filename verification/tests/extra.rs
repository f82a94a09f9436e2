use org_datetime::{
    apply_meridiem, month, parse, render, september, tuesday, Absolute, Date, DateTimeSpec,
    Meridiem, Month, OrgModeDateTimeError, Relative, RenderedSpec, Time, Weekday,
};

#[test]
fn meridiem_pm_adds_twelve_unconditionally() {
    assert_eq!(apply_meridiem(1, Some(Meridiem::PM)), 13);
    assert_eq!(apply_meridiem(11, Some(Meridiem::AM)), 11);
    assert_eq!(apply_meridiem(11, None), 11);
    assert_eq!(apply_meridiem(12, Some(Meridiem::PM)), 24);
}

#[test]
fn twelve_pm_range_is_rejected() {
    // 12pm maps to hour 24 under the unconditional rule, which is no
    // valid clock value: the range is rejected, not wrapped.
    let (input, spec) = parse("11am-12:30pm").unwrap();
    assert_eq!(input, "");
    let now = Date::from_ymd(2006, 6, 13).unwrap().and_hms(0, 0, 0).unwrap();
    assert_eq!(
        render(now, now, spec),
        Err(OrgModeDateTimeError::TryFromIntError)
    );
}

#[test]
fn nonexistent_full_date_is_rejected() {
    let (input, spec) = parse("3-2-45").unwrap();
    assert_eq!(input, "");
    let now = Date::from_ymd(2006, 6, 13).unwrap().and_hms(0, 0, 0).unwrap();
    assert_eq!(
        render(now, now, spec),
        Err(OrgModeDateTimeError::TryFromIntError)
    );
}

#[test]
fn leap_day_full_date_resolves() {
    let (input, spec) = parse("2004-2-29").unwrap();
    assert_eq!(input, "");
    let now = Date::from_ymd(2006, 6, 13).unwrap().and_hms(0, 0, 0).unwrap();
    assert_eq!(
        render(now, now, spec).unwrap(),
        RenderedSpec::Date(Date::from_ymd(2004, 2, 29).unwrap())
    );
    let (_, spec) = parse("2003-2-29").unwrap();
    assert_eq!(
        render(now, now, spec),
        Err(OrgModeDateTimeError::TryFromIntError)
    );
}

#[test]
fn future_month_offset_on_missing_day_fails() {
    let (input, spec) = parse("+8m").unwrap();
    assert_eq!(input, "");
    let now = Date::from_ymd(2006, 10, 31).unwrap().and_hms(0, 0, 0).unwrap();
    assert!(matches!(
        render(now, now, spec),
        Err(OrgModeDateTimeError::UnrepresentableFutureRelativeDate(Relative {
            hours: None,
            days: None,
            weeks: None,
            weekdays: None,
            months: Some(8),
            years: None,
        }))
    ));
}

#[test]
fn day_only_rolls_across_december() {
    let (input, spec) = parse("5").unwrap();
    assert_eq!(input, "");
    let now = Date::from_ymd(2006, 12, 13).unwrap().and_hms(0, 0, 0).unwrap();
    assert_eq!(
        render(now, now, spec).unwrap(),
        RenderedSpec::Date(Date::from_ymd(2007, 1, 5).unwrap())
    );
}

#[test]
fn passed_clock_time_rolls_across_month_end() {
    let (input, spec) = parse("12:45").unwrap();
    assert_eq!(input, "");
    let now = Date::from_ymd(2006, 6, 30).unwrap().and_hms(23, 0, 0).unwrap();
    assert_eq!(
        render(now, now, spec).unwrap(),
        RenderedSpec::DateTime(
            Date::from_ymd(2006, 7, 1).unwrap().and_hms(12, 45, 0).unwrap()
        )
    );
}

#[test]
fn bare_weekday_accepts_same_day() {
    // 2006-06-13 is a Tuesday: the walk accepts the baseline day itself.
    let (input, spec) = parse("tue").unwrap();
    assert_eq!(input, "");
    let now = Date::from_ymd(2006, 6, 13).unwrap().and_hms(0, 0, 0).unwrap();
    assert_eq!(
        render(now, now, spec).unwrap(),
        RenderedSpec::Date(Date::from_ymd(2006, 6, 13).unwrap())
    );
}

#[test]
fn relative_weekday_without_count_adds_one_week() {
    let (input, spec) = parse("+tue").unwrap();
    assert_eq!(input, "");
    let now = Date::from_ymd(2006, 6, 13).unwrap().and_hms(0, 0, 0).unwrap();
    assert_eq!(
        render(now, now, spec).unwrap(),
        RenderedSpec::Date(Date::from_ymd(2006, 6, 20).unwrap())
    );
}

#[test]
fn past_weekday_with_zero_count_is_rejected() {
    let (input, spec) = parse("-0tue").unwrap();
    assert_eq!(input, "");
    let now = Date::from_ymd(2006, 6, 13).unwrap().and_hms(0, 0, 0).unwrap();
    assert_eq!(
        render(now, now, spec),
        Err(OrgModeDateTimeError::TryFromIntError)
    );
}

#[test]
fn bare_marked_time_classifies_but_does_not_resolve() {
    // A lone clock time with an AM/PM marker is a classification the
    // resolver's shape set does not include.
    let (input, spec) = parse("11am").unwrap();
    assert_eq!(input, "");
    assert_eq!(
        spec,
        DateTimeSpec::Absolute(Absolute {
            hour: Some(11),
            meridiem: Some(Meridiem::AM),
            ..Default::default()
        })
    );
    let now = Date::from_ymd(2006, 6, 13).unwrap().and_hms(0, 0, 0).unwrap();
    assert_eq!(
        render(now, now, spec),
        Err(OrgModeDateTimeError::TryFromIntError)
    );
}

#[test]
fn year_offset_from_leap_day_is_rejected() {
    let (input, spec) = parse("+1y").unwrap();
    assert_eq!(input, "");
    let now = Date::from_ymd(2004, 2, 29).unwrap().and_hms(0, 0, 0).unwrap();
    assert_eq!(
        render(now, now, spec),
        Err(OrgModeDateTimeError::TryFromIntError)
    );
}

#[test]
fn iso_week_fifty_three_resolves_in_long_year() {
    // 2015 has 53 ISO weeks; Friday of week 53 is January 1, 2016.
    let (input, spec) = parse("2015 w53 fri").unwrap();
    assert_eq!(input, "");
    let now = Date::from_ymd(2006, 6, 13).unwrap().and_hms(0, 0, 0).unwrap();
    assert_eq!(
        render(now, now, spec).unwrap(),
        RenderedSpec::Date(Date::from_ymd(2016, 1, 1).unwrap())
    );
}

#[test]
fn iso_week_beyond_year_length_is_rejected() {
    // 2006 has only 52 ISO weeks.
    let (input, spec) = parse("2006 w53 1").unwrap();
    assert_eq!(input, "");
    let now = Date::from_ymd(2006, 6, 13).unwrap().and_hms(0, 0, 0).unwrap();
    assert_eq!(
        render(now, now, spec),
        Err(OrgModeDateTimeError::TryFromIntError)
    );
}

#[test]
fn partial_match_leaves_trailing_substring() {
    let (input, spec) = parse("14 foobar").unwrap();
    assert_eq!(input, " foobar");
    assert_eq!(
        spec,
        DateTimeSpec::Absolute(Absolute {
            day: Some(14),
            ..Default::default()
        })
    );
}

#[test]
fn classify_and_resolve_are_deterministic() {
    let now = Date::from_ymd(2006, 6, 13).unwrap().and_hms(0, 0, 0).unwrap();
    let first = parse("+2tue").unwrap();
    let second = parse("+2tue").unwrap();
    assert_eq!(first, second);
    assert_eq!(render(now, now, first.1), render(now, now, second.1));
}

#[test]
fn dotted_past_form_resolves_against_now() {
    let (input, spec) = parse(".-3").unwrap();
    assert_eq!(input, "");
    assert_eq!(
        spec,
        DateTimeSpec::NowRelativePast(Relative {
            days: Some(3),
            ..Default::default()
        })
    );
    let default = Date::from_ymd(1999, 1, 1).unwrap().and_hms(0, 0, 0).unwrap();
    let now = Date::from_ymd(2006, 6, 13).unwrap().and_hms(0, 0, 0).unwrap();
    assert_eq!(
        render(default, now, spec).unwrap(),
        RenderedSpec::Date(Date::from_ymd(2006, 6, 10).unwrap())
    );
}

#[test]
fn dotted_future_form_resolves_against_now() {
    let (input, spec) = parse(".+2d").unwrap();
    assert_eq!(input, "");
    let default = Date::from_ymd(1999, 1, 1).unwrap().and_hms(0, 0, 0).unwrap();
    let now = Date::from_ymd(2006, 6, 13).unwrap().and_hms(0, 0, 0).unwrap();
    assert_eq!(
        render(default, now, spec).unwrap(),
        RenderedSpec::Date(Date::from_ymd(2006, 6, 15).unwrap())
    );
}

#[test]
fn names_are_case_insensitive() {
    assert_eq!(
        parse("SEP 15").unwrap(),
        (
            "",
            DateTimeSpec::Absolute(Absolute {
                month: Some(9),
                day: Some(15),
                ..Default::default()
            }),
        )
    );
    assert_eq!(
        parse("FRIDAY").unwrap(),
        (
            "",
            DateTimeSpec::Absolute(Absolute {
                weekday: Some(5),
                ..Default::default()
            }),
        )
    );
}

#[test]
fn abbreviations_prefer_longest_accepted_form() {
    // `tues` is not an accepted four-letter form: only `tue` matches,
    // leaving the `s` unconsumed.
    assert_eq!(tuesday("tues").unwrap(), ("s", Weekday::Tue));
    // `septe` is an accepted five-letter form and is taken whole.
    assert_eq!(september("septe").unwrap(), ("", Month::September));
    assert_eq!(month("sept").unwrap(), ("", Month::September));
}

#[test]
fn oversized_numeral_fails_classification() {
    assert!(matches!(parse("99999999999999999999"), Err(_)));
}

#[test]
fn classification_error_reports_deepest_position() {
    // Nothing matches at all: position 0.
    assert_eq!(parse("hello").unwrap_err().position, 0);
    // The `w` of a week number is consumed before the digits are missed.
    assert_eq!(parse("w").unwrap_err().position, 1);
    // An oversized numeral is scanned to its end before being rejected.
    assert_eq!(parse("99999999999999999999").unwrap_err().position, 20);
}

#[test]
fn largest_numeral_classifies_but_day_is_rejected() {
    let (input, spec) = parse("4294967295").unwrap();
    assert_eq!(input, "");
    assert_eq!(
        spec,
        DateTimeSpec::Absolute(Absolute {
            day: Some(4294967295),
            ..Default::default()
        })
    );
    let now = Date::from_ymd(2006, 6, 13).unwrap().and_hms(0, 0, 0).unwrap();
    assert_eq!(
        render(now, now, spec),
        Err(OrgModeDateTimeError::TryFromIntError)
    );
}

#[test]
fn default_forms_use_the_default_baseline() {
    let default = Date::from_ymd(2006, 6, 13).unwrap().and_hms(0, 0, 0).unwrap();
    let now = Date::from_ymd(2010, 1, 1).unwrap().and_hms(0, 0, 0).unwrap();
    let (_, spec) = parse("++5").unwrap();
    assert_eq!(
        render(default, now, spec).unwrap(),
        RenderedSpec::Date(Date::from_ymd(2006, 6, 18).unwrap())
    );
    let (_, spec) = parse("+5").unwrap();
    assert_eq!(
        render(default, now, spec).unwrap(),
        RenderedSpec::Date(Date::from_ymd(2010, 1, 6).unwrap())
    );
}

#[test]
fn hour_offsets_cross_midnight() {
    let now = Date::from_ymd(2006, 6, 13).unwrap().and_hms(1, 0, 0).unwrap();
    let (_, spec) = parse("-2h").unwrap();
    assert_eq!(
        render(now, now, spec).unwrap(),
        RenderedSpec::DateTime(
            Date::from_ymd(2006, 6, 12).unwrap().and_hms(23, 0, 0).unwrap()
        )
    );
    let midnight = Date::from_ymd(2006, 6, 13).unwrap().and_hms(0, 0, 0).unwrap();
    let (_, spec) = parse("+25h").unwrap();
    assert_eq!(
        render(midnight, midnight, spec).unwrap(),
        RenderedSpec::DateTime(
            Date::from_ymd(2006, 6, 14).unwrap().and_hms(1, 0, 0).unwrap()
        )
    );
}

#[test]
fn duration_range_wraps_past_midnight() {
    let (input, spec) = parse("11pm+2:00").unwrap();
    assert_eq!(input, "");
    let now = Date::from_ymd(2006, 6, 13).unwrap().and_hms(0, 0, 0).unwrap();
    assert_eq!(
        render(now, now, spec).unwrap(),
        RenderedSpec::TimeRange(
            Time::from_hms(23, 0, 0).unwrap(),
            Time::from_hms(1, 0, 0).unwrap()
        )
    );
}

#[test]
fn plain_time_range_keeps_minutes() {
    let (input, spec) = parse("9:30-10:00").unwrap();
    assert_eq!(input, "");
    let now = Date::from_ymd(2006, 6, 13).unwrap().and_hms(0, 0, 0).unwrap();
    assert_eq!(
        render(now, now, spec).unwrap(),
        RenderedSpec::TimeRange(
            Time::from_hms(9, 30, 0).unwrap(),
            Time::from_hms(10, 0, 0).unwrap()
        )
    );
}

#[test]
fn week_number_is_echoed_unchecked() {
    let (input, spec) = parse("w99").unwrap();
    assert_eq!(input, "");
    let now = Date::from_ymd(2006, 6, 13).unwrap().and_hms(0, 0, 0).unwrap();
    assert_eq!(render(now, now, spec).unwrap(), RenderedSpec::Week(99));
}

#[test]
fn past_month_offset_borrows_into_previous_year() {
    let (input, spec) = parse("-2m").unwrap();
    assert_eq!(input, "");
    let now = Date::from_ymd(2006, 1, 15).unwrap().and_hms(0, 0, 0).unwrap();
    assert_eq!(
        render(now, now, spec).unwrap(),
        RenderedSpec::Date(Date::from_ymd(2005, 11, 15).unwrap())
    );
}

#[test]
fn month_offsets_reduce_modulo_twelve() {
    let now = Date::from_ymd(2006, 6, 13).unwrap().and_hms(0, 0, 0).unwrap();
    let (_, spec) = parse("+15m").unwrap();
    assert_eq!(
        render(now, now, spec).unwrap(),
        RenderedSpec::Date(Date::from_ymd(2006, 9, 13).unwrap())
    );
    let (_, spec) = parse("-15m").unwrap();
    assert_eq!(
        render(now, now, spec).unwrap(),
        RenderedSpec::Date(Date::from_ymd(2006, 3, 13).unwrap())
    );
}

#[test]
fn last_supported_day_resolves_and_ends_the_line() {
    let now = Date::from_ymd(2006, 6, 13).unwrap().and_hms(0, 0, 0).unwrap();
    let (_, spec) = parse("9999-12-31").unwrap();
    assert_eq!(
        render(now, now, spec).unwrap(),
        RenderedSpec::Date(Date::from_ymd(9999, 12, 31).unwrap())
    );
    let last = Date::from_ymd(9999, 12, 31).unwrap().and_hms(0, 0, 0).unwrap();
    let (_, spec) = parse("+1d").unwrap();
    assert_eq!(
        render(last, last, spec),
        Err(OrgModeDateTimeError::TryFromIntError)
    );
}

#[test]
fn small_year_takes_baseline_millennium() {
    let now = Date::from_ymd(2006, 6, 13).unwrap().and_hms(0, 0, 0).unwrap();
    let (_, spec) = parse("0-1-1").unwrap();
    assert_eq!(
        render(now, now, spec).unwrap(),
        RenderedSpec::Date(Date::from_ymd(2000, 1, 1).unwrap())
    );
}

#[test]
fn today_sentinel_ignores_time_of_day() {
    let default = Date::from_ymd(1999, 12, 31).unwrap().and_hms(1, 2, 3).unwrap();
    let now = Date::from_ymd(2008, 2, 29).unwrap().and_hms(23, 59, 59).unwrap();
    let (_, spec) = parse(".").unwrap();
    assert_eq!(
        render(default, now, spec).unwrap(),
        RenderedSpec::Date(Date::from_ymd(2008, 2, 29).unwrap())
    );
    let (_, spec) = parse("+0").unwrap();
    assert_eq!(
        render(default, now, spec).unwrap(),
        RenderedSpec::Date(Date::from_ymd(2008, 2, 29).unwrap())
    );
}
