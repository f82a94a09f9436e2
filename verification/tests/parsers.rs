use org_datetime::{
    april, august, december, february, friday, january, july, june, march, may, monday, month,
    november, october, parse_dashed_date, parse_iso_date, parse_slashed_date, saturday,
    september, sunday, thursday, tuesday, wednesday, weekday, Absolute, DateTimeSpec, Month,
    Weekday,
};

#[test]
fn test_weekday_terminals() {
    assert_eq!(monday("monday").unwrap(), ("", Weekday::Mon));
    assert_eq!(tuesday("tuesday").unwrap(), ("", Weekday::Tue));
    assert_eq!(wednesday("wednesday").unwrap(), ("", Weekday::Wed));
    assert_eq!(thursday("thursday").unwrap(), ("", Weekday::Thu));
    assert_eq!(friday("friday").unwrap(), ("", Weekday::Fri));
    assert_eq!(saturday("saturday").unwrap(), ("", Weekday::Sat));
    assert_eq!(sunday("sunday").unwrap(), ("", Weekday::Sun));
}

#[test]
fn test_weekday_nonterminal() {
    assert_eq!(
        weekday("mon").unwrap(),
        ("", Weekday::Mon.number_from_monday())
    );
    assert_eq!(
        weekday("tue").unwrap(),
        ("", Weekday::Tue.number_from_monday())
    );
    assert_eq!(
        weekday("wed").unwrap(),
        ("", Weekday::Wed.number_from_monday())
    );
    assert_eq!(
        weekday("thu").unwrap(),
        ("", Weekday::Thu.number_from_monday())
    );
    assert_eq!(
        weekday("fri").unwrap(),
        ("", Weekday::Fri.number_from_monday())
    );
    assert_eq!(
        weekday("sat").unwrap(),
        ("", Weekday::Sat.number_from_monday())
    );
    assert_eq!(
        weekday("sun").unwrap(),
        ("", Weekday::Sun.number_from_monday())
    );
}

#[test]
fn test_month_terminals() {
    assert_eq!(january("january").unwrap(), ("", Month::January));
    assert_eq!(february("february").unwrap(), ("", Month::February));
    assert_eq!(march("march").unwrap(), ("", Month::March));
    assert_eq!(april("april").unwrap(), ("", Month::April));
    assert_eq!(may("may").unwrap(), ("", Month::May));
    assert_eq!(june("june").unwrap(), ("", Month::June));
    assert_eq!(july("july").unwrap(), ("", Month::July));
    assert_eq!(august("august").unwrap(), ("", Month::August));
    assert_eq!(september("september").unwrap(), ("", Month::September));
    assert_eq!(october("october").unwrap(), ("", Month::October));
    assert_eq!(november("november").unwrap(), ("", Month::November));
    assert_eq!(december("december").unwrap(), ("", Month::December));
}

#[test]
fn test_month_nonterminal() {
    assert_eq!(month("jan").unwrap(), ("", Month::January));
    assert_eq!(month("feb").unwrap(), ("", Month::February));
    assert_eq!(month("mar").unwrap(), ("", Month::March));
    assert_eq!(month("apr").unwrap(), ("", Month::April));
    assert_eq!(month("may").unwrap(), ("", Month::May));
    assert_eq!(month("jun").unwrap(), ("", Month::June));
    assert_eq!(month("jul").unwrap(), ("", Month::July));
    assert_eq!(month("aug").unwrap(), ("", Month::August));
    assert_eq!(month("sep").unwrap(), ("", Month::September));
    assert_eq!(month("oct").unwrap(), ("", Month::October));
    assert_eq!(month("nov").unwrap(), ("", Month::November));
    assert_eq!(month("dec").unwrap(), ("", Month::December));
}

#[test]
fn test_dashed_date() {
    assert_eq!(
        parse_dashed_date("3-2-5").unwrap(),
        (
            "",
            DateTimeSpec::Absolute(Absolute {
                year: Some(3),
                month: Some(2),
                day: Some(5),
                ..Default::default()
            })
        )
    );
}

#[test]
fn parser_test_slashed_date() {
    assert_eq!(
        parse_slashed_date("2/5/3").unwrap(),
        (
            "",
            DateTimeSpec::Absolute(Absolute {
                year: Some(3),
                month: Some(2),
                day: Some(5),
                ..Default::default()
            })
        )
    );
}

#[test]
fn test_iso_date() {
    assert_eq!(
        parse_iso_date("2012 w4 fri").unwrap(),
        (
            "",
            DateTimeSpec::Absolute(Absolute {
                year: Some(2012),
                week: Some(4),
                weekday: Some(5),
                ..Default::default()
            })
        )
    );

    assert_eq!(
        parse_iso_date("2012-w04-5").unwrap(),
        (
            "",
            DateTimeSpec::Absolute(Absolute {
                year: Some(2012),
                week: Some(4),
                weekday: Some(5),
                ..Default::default()
            })
        )
    );
}
