use org_datetime::{
    parse, Absolute, AbsoluteTime, DateTimeSpec, Meridiem, Relative, RelativeTime,
};

#[test]
fn parser_dashed_date() {
    assert_eq!(
        parse("3-2-5").unwrap(),
        (
            "",
            DateTimeSpec::Absolute(Absolute {
                year: Some(3),
                month: Some(2),
                day: Some(5),
                ..Default::default()
            }),
        )
    );
}

#[test]
fn test_slashed_date() {
    assert_eq!(
        parse("2/5/3").unwrap(),
        (
            "",
            DateTimeSpec::Absolute(Absolute {
                year: Some(3),
                month: Some(2),
                day: Some(5),
                ..Default::default()
            }),
        )
    );
}

#[test]
fn test_day_of_month() {
    assert_eq!(
        parse("14").unwrap(),
        (
            "",
            DateTimeSpec::Absolute(Absolute {
                day: Some(14),
                ..Default::default()
            }),
        )
    );
}

#[test]
fn test_month_slash_day() {
    assert_eq!(
        parse("2/5").unwrap(),
        (
            "",
            DateTimeSpec::Absolute(Absolute {
                month: Some(2),
                day: Some(5),
                ..Default::default()
            }),
        )
    );
}

#[test]
fn test_weekday() {
    assert_eq!(
        parse("Fri").unwrap(),
        (
            "",
            DateTimeSpec::Absolute(Absolute {
                weekday: Some(5),
                ..Default::default()
            }),
        )
    );
}

#[test]
fn parser_test_month_day() {
    assert_eq!(
        parse("sep 15").unwrap(),
        (
            "",
            DateTimeSpec::Absolute(Absolute {
                month: Some(9),
                day: Some(15),
                ..Default::default()
            }),
        )
    );
    assert_eq!(
        parse("feb 15").unwrap(),
        (
            "",
            DateTimeSpec::Absolute(Absolute {
                month: Some(2),
                day: Some(15),
                ..Default::default()
            }),
        )
    );
}

#[test]
fn parser_test_month_day_year() {
    assert_eq!(
        parse("sep 12 9").unwrap(),
        (
            "",
            DateTimeSpec::Absolute(Absolute {
                year: Some(9),
                month: Some(9),
                day: Some(12),
                ..Default::default()
            }),
        )
    );
}

#[test]
fn parser_test_hour_minute() {
    assert_eq!(
        parse("12:45").unwrap(),
        (
            "",
            DateTimeSpec::Absolute(Absolute {
                minute: Some(45),
                hour: Some(12),
                ..Default::default()
            }),
        )
    );
}

#[test]
fn parser_test_day_month_hour_minute() {
    assert_eq!(
        parse("22 sept 0:34").unwrap(),
        (
            "",
            DateTimeSpec::Absolute(Absolute {
                day: Some(22),
                month: Some(9),
                minute: Some(34),
                hour: Some(0),
                ..Default::default()
            }),
        )
    );
}

#[test]
fn parser_test_week_number() {
    assert_eq!(
        parse("w4").unwrap(),
        (
            "",
            DateTimeSpec::Absolute(Absolute {
                week: Some(4),
                ..Default::default()
            }),
        )
    );
}

#[test]
fn test_iso_week_date() {
    assert_eq!(
        parse("2012 w4 fri").unwrap(),
        (
            "",
            DateTimeSpec::Absolute(Absolute {
                year: Some(2012),
                week: Some(4),
                weekday: Some(5),
                ..Default::default()
            }),
        )
    );
    assert_eq!(
        parse("2012-w04-5").unwrap(),
        (
            "",
            DateTimeSpec::Absolute(Absolute {
                year: Some(2012),
                week: Some(4),
                weekday: Some(5),
                ..Default::default()
            }),
        )
    );
}

#[test]
fn test_empty() {
    assert!(matches!(parse(""), Err(_)));
}

#[test]
fn test_plus() {
    assert!(matches!(parse("+"), Err(_)));
}

#[test]
fn parser_test_plus_zero() {
    assert_eq!(
        parse("+0").unwrap(),
        (
            "",
            DateTimeSpec::NowRelativeFuture(Relative {
                days: Some(0),
                ..Default::default()
            }),
        )
    );
}

#[test]
fn parser_test_dot() {
    assert_eq!(
        parse(".").unwrap(),
        (
            "",
            DateTimeSpec::NowRelativeFuture(Relative {
                ..Default::default()
            }),
        )
    );
}

#[test]
fn parser_test_plus_hours() {
    assert_eq!(
        parse("+3h").unwrap(),
        (
            "",
            DateTimeSpec::NowRelativeFuture(Relative {
                hours: Some(3),
                ..Default::default()
            }),
        )
    );
}

#[test]
fn parser_test_plus_days() {
    assert_eq!(
        parse("+4d").unwrap(),
        (
            "",
            DateTimeSpec::NowRelativeFuture(Relative {
                days: Some(4),
                ..Default::default()
            }),
        )
    );
}

#[test]
fn parser_test_plus_weeks() {
    assert_eq!(
        parse("+2w").unwrap(),
        (
            "",
            DateTimeSpec::NowRelativeFuture(Relative {
                weeks: Some(2),
                ..Default::default()
            }),
        )
    );
}

#[test]
fn parser_test_plus_months() {
    assert_eq!(
        parse("+3m").unwrap(),
        (
            "",
            DateTimeSpec::NowRelativeFuture(Relative {
                months: Some(3),
                ..Default::default()
            }),
        )
    );
}

#[test]
fn parser_test_plus_years() {
    assert_eq!(
        parse("+3y").unwrap(),
        (
            "",
            DateTimeSpec::NowRelativeFuture(Relative {
                years: Some(3),
                ..Default::default()
            }),
        )
    );
}

#[test]
fn parser_test_default_plus_days() {
    assert_eq!(
        parse("++5").unwrap(),
        (
            "",
            DateTimeSpec::DefaultRelativeFuture(Relative {
                days: Some(5),
                ..Default::default()
            }),
        )
    );
    assert_eq!(
        parse("--5").unwrap(),
        (
            "",
            DateTimeSpec::DefaultRelativePast(Relative {
                days: Some(5),
                ..Default::default()
            }),
        )
    );
}

#[test]
fn test_relative_weekdays() {
    assert_eq!(
        parse("+2tue").unwrap(),
        (
            "",
            DateTimeSpec::NowRelativeFuture(Relative {
                weekdays: Some(2),
                weeks: Some(2),
                ..Default::default()
            }),
        )
    );
    assert_eq!(
        parse("-wed").unwrap(),
        (
            "",
            DateTimeSpec::NowRelativePast(Relative {
                weekdays: Some(3),
                weeks: None,
                ..Default::default()
            }),
        )
    );
}

#[test]
fn parser_test_time_range() {
    assert_eq!(
        parse("11am-1:15pm").unwrap(),
        (
            "",
            DateTimeSpec::TimeRangeAbsoluteStartAbsoluteEnd(
                AbsoluteTime {
                    meridiem: Some(Meridiem::AM),
                    hour: Some(11),
                    minute: None
                },
                AbsoluteTime {
                    meridiem: Some(Meridiem::PM),
                    minute: Some(15),
                    hour: Some(1)
                }
            ),
        )
    );
    assert_eq!(
        parse("11am--1:15pm").unwrap(),
        (
            "",
            DateTimeSpec::TimeRangeAbsoluteStartAbsoluteEnd(
                AbsoluteTime {
                    meridiem: Some(Meridiem::AM),
                    hour: Some(11),
                    minute: None
                },
                AbsoluteTime {
                    meridiem: Some(Meridiem::PM),
                    minute: Some(15),
                    hour: Some(1)
                }
            ),
        )
    );
}

#[test]
fn parser_test_time_duration() {
    assert_eq!(
        parse("11am+2:15").unwrap(),
        (
            "",
            DateTimeSpec::TimeRangeAbsoluteStartRelativeEnd(
                AbsoluteTime {
                    meridiem: Some(Meridiem::AM),
                    hour: Some(11),
                    minute: None
                },
                RelativeTime {
                    hours: Some(2),
                    minutes: Some(15),
                }
            ),
        )
    );
}
