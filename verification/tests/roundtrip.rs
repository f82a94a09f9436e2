use org_datetime::{parse, render, Date, OrgModeDateTimeError, Relative, RenderedSpec, Time};

#[test]
fn lib_dashed_date() {
    let (input, spec) = parse("3-2-5").unwrap();
    assert_eq!(input, "");
    let unused = Date::from_ymd(2006, 6, 13).unwrap().and_hms(0, 0, 0).unwrap();
    assert_eq!(
        render(unused, unused, spec).unwrap(),
        RenderedSpec::Date(Date::from_ymd(2003, 2, 5).unwrap())
    );
}

#[test]
fn lib_test_slashed_date() {
    let (input, spec) = parse("2/5/3").unwrap();
    assert_eq!(input, "");
    let unused = Date::from_ymd(2006, 6, 13).unwrap().and_hms(0, 0, 0).unwrap();
    assert_eq!(
        render(unused, unused, spec).unwrap(),
        RenderedSpec::Date(Date::from_ymd(2003, 2, 5).unwrap())
    );
}

#[test]
fn lib_test_day_of_month() {
    let (input, spec) = parse("14").unwrap();
    assert_eq!(input, "");
    let now = Date::from_ymd(2006, 6, 13).unwrap().and_hms(0, 0, 0).unwrap();
    let unused = now;
    assert_eq!(
        render(unused, now, spec).unwrap(),
        RenderedSpec::Date(Date::from_ymd(2006, 6, 14).unwrap())
    );
}

#[test]
fn test_day_month() {
    let (input, spec) = parse("12").unwrap();
    assert_eq!(input, "");
    let now = Date::from_ymd(2006, 6, 13).unwrap().and_hms(0, 0, 0).unwrap();
    let unused = now;
    assert_eq!(
        render(unused, now, spec).unwrap(),
        RenderedSpec::Date(Date::from_ymd(2006, 7, 12).unwrap())
    );
}

#[test]
fn test_day_slash_month() {
    let (input, spec) = parse("2/5").unwrap();
    assert_eq!(input, "");
    let now = Date::from_ymd(2006, 6, 13).unwrap().and_hms(0, 0, 0).unwrap();
    let unused = now;
    assert_eq!(
        render(unused, now, spec).unwrap(),
        RenderedSpec::Date(Date::from_ymd(2007, 2, 5).unwrap())
    );
}

#[test]
fn test_week_day() {
    let (input, spec) = parse("Fri").unwrap();
    assert_eq!(input, "");
    let now = Date::from_ymd(2006, 6, 13).unwrap().and_hms(0, 0, 0).unwrap();
    let unused = now;
    assert_eq!(
        render(unused, now, spec).unwrap(),
        RenderedSpec::Date(Date::from_ymd(2006, 6, 16).unwrap())
    );
}

#[test]
fn lib_test_month_day() {
    let (input, spec) = parse("sep 15").unwrap();
    assert_eq!(input, "");
    let now = Date::from_ymd(2006, 6, 13).unwrap().and_hms(0, 0, 0).unwrap();
    let unused = now;
    assert_eq!(
        render(unused, now, spec).unwrap(),
        RenderedSpec::Date(Date::from_ymd(2006, 9, 15).unwrap())
    );

    let (input, spec) = parse("feb 15").unwrap();
    assert_eq!(input, "");
    let now = Date::from_ymd(2006, 6, 13).unwrap().and_hms(0, 0, 0).unwrap();
    let unused = now;
    assert_eq!(
        render(unused, now, spec).unwrap(),
        RenderedSpec::Date(Date::from_ymd(2007, 2, 15).unwrap())
    );
}

#[test]
fn lib_test_month_day_year() {
    let (input, spec) = parse("sep 12 9").unwrap();
    assert_eq!(input, "");
    let now = Date::from_ymd(2006, 6, 13).unwrap().and_hms(0, 0, 0).unwrap();
    let unused = now;
    assert_eq!(
        render(unused, now, spec).unwrap(),
        RenderedSpec::Date(Date::from_ymd(2009, 9, 12).unwrap())
    );
}

#[test]
fn lib_test_hour_minute() {
    let (input, spec) = parse("12:45").unwrap();
    assert_eq!(input, "");
    let now = Date::from_ymd(2006, 6, 13).unwrap().and_hms(0, 0, 0).unwrap();
    let unused = now;
    assert_eq!(
        render(unused, now, spec).unwrap(),
        RenderedSpec::DateTime(
            Date::from_ymd(2006, 6, 13).unwrap().and_hms(12, 45, 0).unwrap()
        )
    );
}

#[test]
fn lib_test_day_month_hour_minute() {
    let (input, spec) = parse("22 sept 0:34").unwrap();
    assert_eq!(input, "");
    let now = Date::from_ymd(2006, 6, 13).unwrap().and_hms(0, 0, 0).unwrap();
    let unused = now;
    assert_eq!(
        render(unused, now, spec).unwrap(),
        RenderedSpec::DateTime(
            Date::from_ymd(2006, 9, 22).unwrap().and_hms(0, 34, 0).unwrap()
        )
    );
}

#[test]
fn lib_test_week_number() {
    let (input, spec) = parse("w4").unwrap();
    assert_eq!(input, "");
    let unused = Date::from_ymd(2006, 6, 13).unwrap().and_hms(0, 0, 0).unwrap();
    assert_eq!(render(unused, unused, spec).unwrap(), RenderedSpec::Week(4));
}

#[test]
fn test_week_date() {
    let (input, spec) = parse("2012 w4 fri").unwrap();
    assert_eq!(input, "");
    let now = Date::from_ymd(2006, 6, 13).unwrap().and_hms(0, 0, 0).unwrap();
    let unused = now;
    assert_eq!(
        render(unused, now, spec).unwrap(),
        RenderedSpec::Date(Date::from_ymd(2012, 1, 27).unwrap())
    );

    let (input, spec) = parse("2012-w04-5").unwrap();
    assert_eq!(input, "");
    let now = Date::from_ymd(2006, 6, 13).unwrap().and_hms(0, 0, 0).unwrap();
    let unused = now;
    assert_eq!(
        render(unused, now, spec).unwrap(),
        RenderedSpec::Date(Date::from_ymd(2012, 1, 27).unwrap())
    );
}

#[test]
fn lib_test_plus_zero() {
    let (input, spec) = parse("+0").unwrap();
    assert_eq!(input, "");
    let default = Date::from_ymd(2006, 6, 13).unwrap().and_hms(0, 0, 0).unwrap();
    let now = default;
    assert_eq!(
        render(default, now, spec).unwrap(),
        RenderedSpec::Date(now.date)
    );
}

#[test]
fn lib_test_dot() {
    let (input, spec) = parse(".").unwrap();
    assert_eq!(input, "");
    let default = Date::from_ymd(2006, 6, 13).unwrap().and_hms(0, 0, 0).unwrap();
    let now = default;
    assert_eq!(
        render(default, now, spec).unwrap(),
        RenderedSpec::Date(now.date)
    );
}

#[test]
fn lib_test_plus_hours() {
    let (input, spec) = parse("+2h").unwrap();
    assert_eq!(input, "");
    let now = Date::from_ymd(2006, 6, 13).unwrap().and_hms(0, 0, 0).unwrap();
    let unused = now;
    assert_eq!(
        render(unused, now, spec).unwrap(),
        RenderedSpec::DateTime(
            Date::from_ymd(2006, 6, 13).unwrap().and_hms(2, 0, 0).unwrap()
        )
    );
}

#[test]
fn lib_test_plus_days() {
    let (input, spec) = parse("+4d").unwrap();
    assert_eq!(input, "");
    let now = Date::from_ymd(2006, 6, 13).unwrap().and_hms(0, 0, 0).unwrap();
    let unused = now;
    assert_eq!(
        render(unused, now, spec).unwrap(),
        RenderedSpec::Date(Date::from_ymd(2006, 6, 17).unwrap())
    );
}

#[test]
fn lib_test_plus_weeks() {
    let (input, spec) = parse("+4w").unwrap();
    assert_eq!(input, "");
    let now = Date::from_ymd(2006, 6, 13).unwrap().and_hms(0, 0, 0).unwrap();
    let unused = now;
    assert_eq!(
        render(unused, now, spec).unwrap(),
        RenderedSpec::Date(Date::from_ymd(2006, 7, 11).unwrap())
    );
}

#[test]
fn lib_test_plus_months() {
    let (input, spec) = parse("+3m").unwrap();
    assert_eq!(input, "");
    let now = Date::from_ymd(2006, 6, 13).unwrap().and_hms(0, 0, 0).unwrap();
    let unused = now;
    assert_eq!(
        render(unused, now, spec).unwrap(),
        RenderedSpec::Date(Date::from_ymd(2006, 9, 13).unwrap())
    );
}

#[test]
fn test_minus_months_impossible() {
    let (input, spec) = parse("-4m").unwrap();
    assert_eq!(input, "");
    let now = Date::from_ymd(2006, 6, 30).unwrap().and_hms(0, 0, 0).unwrap();
    let unused = now;
    assert!(matches!(
        render(unused, now, spec),
        Err(OrgModeDateTimeError::UnrepresentablePastRelativeDate(Relative {
            hours: None,
            days: None,
            weeks: None,
            weekdays: None,
            months: Some(4),
            years: None,
        }))
    ));
}

#[test]
fn test_minus_months() {
    let (input, spec) = parse("-3m").unwrap();
    assert_eq!(input, "");
    let now = Date::from_ymd(2006, 6, 13).unwrap().and_hms(0, 0, 0).unwrap();
    let unused = now;
    assert_eq!(
        render(unused, now, spec).unwrap(),
        RenderedSpec::Date(Date::from_ymd(2006, 3, 13).unwrap())
    );
}

#[test]
fn lib_test_plus_years() {
    let (input, spec) = parse("+3y").unwrap();
    assert_eq!(input, "");
    let now = Date::from_ymd(2006, 6, 13).unwrap().and_hms(0, 0, 0).unwrap();
    let unused = now;
    assert_eq!(
        render(unused, now, spec).unwrap(),
        RenderedSpec::Date(Date::from_ymd(2009, 6, 13).unwrap())
    );
}

#[test]
fn lib_test_default_plus_days() {
    let (input, spec) = parse("++5").unwrap();
    assert_eq!(input, "");
    let default = Date::from_ymd(2006, 6, 13).unwrap().and_hms(0, 0, 0).unwrap();
    let unused = default;
    assert_eq!(
        render(default, unused, spec).unwrap(),
        RenderedSpec::Date(Date::from_ymd(2006, 6, 18).unwrap())
    );
}

#[test]
fn test_default_minus_days() {
    let (input, spec) = parse("--5").unwrap();
    assert_eq!(input, "");
    let default = Date::from_ymd(2006, 6, 13).unwrap().and_hms(0, 0, 0).unwrap();
    let unused = default;
    assert_eq!(
        render(default, unused, spec).unwrap(),
        RenderedSpec::Date(Date::from_ymd(2006, 6, 8).unwrap())
    );
}

#[test]
fn test_plus_relative_weekdays() {
    let (input, spec) = parse("+2tue").unwrap();
    assert_eq!(input, "");
    let now = Date::from_ymd(2006, 6, 13).unwrap().and_hms(0, 0, 0).unwrap();
    let unused = now;
    assert_eq!(
        render(unused, now, spec).unwrap(),
        RenderedSpec::Date(Date::from_ymd(2006, 6, 27).unwrap())
    );
}

#[test]
fn test_minus_relative_weekdays() {
    let (input, spec) = parse("-wed").unwrap();
    assert_eq!(input, "");
    let now = Date::from_ymd(2006, 6, 13).unwrap().and_hms(0, 0, 0).unwrap();
    let unused = now;
    assert_eq!(
        render(unused, now, spec).unwrap(),
        RenderedSpec::Date(Date::from_ymd(2006, 6, 7).unwrap())
    );
}

#[test]
fn lib_test_time_range() {
    let (input, spec) = parse("11am-1:15pm").unwrap();
    assert_eq!(input, "");
    let now = Date::from_ymd(2006, 6, 13).unwrap().and_hms(0, 0, 0).unwrap();
    let unused = now;
    assert_eq!(
        render(unused, now, spec).unwrap(),
        RenderedSpec::TimeRange(
            Time::from_hms(11, 0, 0).unwrap(),
            Time::from_hms(13, 15, 0).unwrap()
        )
    );
}

#[test]
fn test_time_range_double_dash() {
    let (input, spec) = parse("11am--1:15pm").unwrap();
    assert_eq!(input, "");
    let now = Date::from_ymd(2006, 6, 13).unwrap().and_hms(0, 0, 0).unwrap();
    let unused = now;
    assert_eq!(
        render(unused, now, spec).unwrap(),
        RenderedSpec::TimeRange(
            Time::from_hms(11, 0, 0).unwrap(),
            Time::from_hms(13, 15, 0).unwrap()
        )
    );
}

#[test]
fn lib_test_time_duration() {
    let (input, spec) = parse("11am+2:15").unwrap();
    assert_eq!(input, "");
    let now = Date::from_ymd(2006, 6, 13).unwrap().and_hms(0, 0, 0).unwrap();
    let unused = now;
    assert_eq!(
        render(unused, now, spec).unwrap(),
        RenderedSpec::TimeRange(
            Time::from_hms(11, 0, 0).unwrap(),
            Time::from_hms(13, 15, 0).unwrap()
        )
    );
}
