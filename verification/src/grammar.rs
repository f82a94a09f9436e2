//! The grammar, as specification functions over character sequences.
//!
//! Each function mirrors one production of the accepted mini-language and
//! returns the unconsumed remainder together with the parsed value, or
//! `None` where the production does not match.  Alternation is ordered:
//! the first matching alternative wins.  The executable parser is proved
//! to return exactly what these functions describe.
use vstd::prelude::*;

use crate::model::{
    Absolute, AbsoluteTime, DateTimeSpec, Meridiem, Month, Relative, RelativeTime, Weekday,
};

verus! {

/// ASCII-lowercased code of a character; other characters are unchanged.
pub open spec fn lower_code(c: char) -> int {
    if 65 <= c as u32 && c as u32 <= 90 {
        c as u32 + 32
    } else {
        c as u32 as int
    }
}

/// Case-insensitive character equality (ASCII folding).
pub open spec fn ci_eq(a: char, b: char) -> bool {
    lower_code(a) == lower_code(b)
}

/// Matches the literal `t` at the head of `s`.
pub open spec fn spec_tag(s: Seq<char>, t: Seq<char>) -> Option<Seq<char>> {
    if t.len() <= s.len() && (forall|i: int| 0 <= i < t.len() ==> s[i] == t[i]) {
        Some(s.skip(t.len() as int))
    } else {
        None
    }
}

/// Matches the literal `t` at the head of `s`, ignoring ASCII case.
pub open spec fn spec_tag_ci(s: Seq<char>, t: Seq<char>) -> Option<Seq<char>> {
    if t.len() <= s.len() && (forall|i: int| 0 <= i < t.len() ==> ci_eq(s[i], t[i])) {
        Some(s.skip(t.len() as int))
    } else {
        None
    }
}

pub open spec fn is_digit_char(c: char) -> bool {
    48 <= c as u32 && c as u32 <= 57
}

/// Length of the run of decimal digits at the head of `s`.
pub open spec fn digit_run_len(s: Seq<char>) -> nat
    decreases s.len(),
{
    if s.len() == 0 || !is_digit_char(s[0]) {
        0
    } else {
        1 + digit_run_len(s.skip(1))
    }
}

/// Value of a sequence of decimal digits, most significant first.
pub open spec fn digits_value(s: Seq<char>) -> int
    decreases s.len(),
{
    if s.len() == 0 {
        0
    } else {
        digits_value(s.drop_last()) * 10 + (s.last() as u32 - 48)
    }
}

/// A numeric token: the maximal run of decimal digits, parsed as an
/// unsigned integer.  A run whose value exceeds `u32::MAX` is rejected.
pub open spec fn spec_number(s: Seq<char>) -> Option<(Seq<char>, u32)> {
    let n = digit_run_len(s);
    if n == 0 {
        None
    } else {
        let v = digits_value(s.take(n as int));
        if v > u32::MAX {
            None
        } else {
            Some((s.skip(n as int), v as u32))
        }
    }
}

pub open spec fn is_space_char(c: char) -> bool {
    c == ' ' || c == '\t'
}

/// Length of the run of blank characters at the head of `s`.
pub open spec fn space_run_len(s: Seq<char>) -> nat
    decreases s.len(),
{
    if s.len() == 0 || !is_space_char(s[0]) {
        0
    } else {
        1 + space_run_len(s.skip(1))
    }
}

/// One or more blank characters.
pub open spec fn spec_space1(s: Seq<char>) -> Option<Seq<char>> {
    let n = space_run_len(s);
    if n == 0 {
        None
    } else {
        Some(s.skip(n as int))
    }
}

/// `rest` is what remains of `s` after consuming some prefix.
pub open spec fn is_suffix_of(rest: Seq<char>, s: Seq<char>) -> bool {
    exists|k: int| 0 <= k <= s.len() && rest == s.skip(k)
}

/// The executable result `r` returns exactly what the grammar function
/// describes on the input `src`: on success the same value, and a
/// remainder with the same characters that is an untouched suffix of the
/// input; on failure, a diagnostic input position no further than the
/// input's end.
pub open spec fn parses_to<'a, T>(
    r: Result<(&'a str, T), usize>,
    s: Option<(Seq<char>, T)>,
    src: Seq<char>,
) -> bool {
    match r {
        Ok(p) => s matches Some(q) && p.0@ == q.0 && p.1 == q.1 && is_suffix_of(p.0@, src),
        Err(e) => s is None && e <= src.len(),
    }
}

/// As [`parses_to`], for productions that return only a remainder.
pub open spec fn rest_parses_to(r: Result<&str, usize>, s: Option<Seq<char>>, src: Seq<
    char,
>) -> bool {
    match r {
        Ok(p) => s matches Some(q) && p@ == q && is_suffix_of(p@, src),
        Err(e) => s is None && e <= src.len(),
    }
}

pub proof fn lemma_suffix_refl(s: Seq<char>)
    ensures
        is_suffix_of(s, s),
{
    assert(s == s.skip(0));
}

pub proof fn lemma_suffix_trans(a: Seq<char>, b: Seq<char>, c: Seq<char>)
    requires
        is_suffix_of(a, b),
        is_suffix_of(b, c),
    ensures
        is_suffix_of(a, c),
{
    let k1 = choose|k1: int| 0 <= k1 <= b.len() && a == b.skip(k1);
    let k2 = choose|k2: int| 0 <= k2 <= c.len() && b == c.skip(k2);
    assert(a =~= c.skip(k1 + k2));
}

pub proof fn lemma_skip_is_suffix(s: Seq<char>, k: int)
    requires
        0 <= k <= s.len(),
    ensures
        is_suffix_of(s.skip(k), s),
{
}

pub proof fn lemma_suffix_len(rest: Seq<char>, s: Seq<char>)
    requires
        is_suffix_of(rest, s),
    ensures
        rest.len() <= s.len(),
{
}

/// Weekday name `monday`, longest accepted abbreviation first.
pub open spec fn spec_monday(s: Seq<char>) -> Option<(Seq<char>, Weekday)> {
    if let Some(r) = spec_tag_ci(s, "monday"@) {
        Some((r, Weekday::Mon))
    } else if let Some(r) = spec_tag_ci(s, "monda"@) {
        Some((r, Weekday::Mon))
    } else if let Some(r) = spec_tag_ci(s, "mond"@) {
        Some((r, Weekday::Mon))
    } else if let Some(r) = spec_tag_ci(s, "mon"@) {
        Some((r, Weekday::Mon))
    } else {
        None
    }
}

/// Weekday name `tuesday`, longest accepted abbreviation first.
pub open spec fn spec_tuesday(s: Seq<char>) -> Option<(Seq<char>, Weekday)> {
    if let Some(r) = spec_tag_ci(s, "tuesday"@) {
        Some((r, Weekday::Tue))
    } else if let Some(r) = spec_tag_ci(s, "tuesda"@) {
        Some((r, Weekday::Tue))
    } else if let Some(r) = spec_tag_ci(s, "tuesd"@) {
        Some((r, Weekday::Tue))
    } else if let Some(r) = spec_tag_ci(s, "tue"@) {
        Some((r, Weekday::Tue))
    } else {
        None
    }
}

/// Weekday name `wednesday`, longest accepted abbreviation first.
pub open spec fn spec_wednesday(s: Seq<char>) -> Option<(Seq<char>, Weekday)> {
    if let Some(r) = spec_tag_ci(s, "wednesday"@) {
        Some((r, Weekday::Wed))
    } else if let Some(r) = spec_tag_ci(s, "wednesda"@) {
        Some((r, Weekday::Wed))
    } else if let Some(r) = spec_tag_ci(s, "wednesd"@) {
        Some((r, Weekday::Wed))
    } else if let Some(r) = spec_tag_ci(s, "wednes"@) {
        Some((r, Weekday::Wed))
    } else if let Some(r) = spec_tag_ci(s, "wedne"@) {
        Some((r, Weekday::Wed))
    } else if let Some(r) = spec_tag_ci(s, "wedn"@) {
        Some((r, Weekday::Wed))
    } else if let Some(r) = spec_tag_ci(s, "wed"@) {
        Some((r, Weekday::Wed))
    } else {
        None
    }
}

/// Weekday name `thursday`, longest accepted abbreviation first.
pub open spec fn spec_thursday(s: Seq<char>) -> Option<(Seq<char>, Weekday)> {
    if let Some(r) = spec_tag_ci(s, "thursday"@) {
        Some((r, Weekday::Thu))
    } else if let Some(r) = spec_tag_ci(s, "thursda"@) {
        Some((r, Weekday::Thu))
    } else if let Some(r) = spec_tag_ci(s, "thursd"@) {
        Some((r, Weekday::Thu))
    } else if let Some(r) = spec_tag_ci(s, "thurs"@) {
        Some((r, Weekday::Thu))
    } else if let Some(r) = spec_tag_ci(s, "thur"@) {
        Some((r, Weekday::Thu))
    } else if let Some(r) = spec_tag_ci(s, "thu"@) {
        Some((r, Weekday::Thu))
    } else {
        None
    }
}

/// Weekday name `friday`, longest accepted abbreviation first.
pub open spec fn spec_friday(s: Seq<char>) -> Option<(Seq<char>, Weekday)> {
    if let Some(r) = spec_tag_ci(s, "friday"@) {
        Some((r, Weekday::Fri))
    } else if let Some(r) = spec_tag_ci(s, "frida"@) {
        Some((r, Weekday::Fri))
    } else if let Some(r) = spec_tag_ci(s, "frid"@) {
        Some((r, Weekday::Fri))
    } else if let Some(r) = spec_tag_ci(s, "fri"@) {
        Some((r, Weekday::Fri))
    } else {
        None
    }
}

/// Weekday name `saturday`, longest accepted abbreviation first.
pub open spec fn spec_saturday(s: Seq<char>) -> Option<(Seq<char>, Weekday)> {
    if let Some(r) = spec_tag_ci(s, "saturday"@) {
        Some((r, Weekday::Sat))
    } else if let Some(r) = spec_tag_ci(s, "saturda"@) {
        Some((r, Weekday::Sat))
    } else if let Some(r) = spec_tag_ci(s, "saturd"@) {
        Some((r, Weekday::Sat))
    } else if let Some(r) = spec_tag_ci(s, "satur"@) {
        Some((r, Weekday::Sat))
    } else if let Some(r) = spec_tag_ci(s, "satu"@) {
        Some((r, Weekday::Sat))
    } else if let Some(r) = spec_tag_ci(s, "sat"@) {
        Some((r, Weekday::Sat))
    } else {
        None
    }
}

/// Weekday name `sunday`, longest accepted abbreviation first.
pub open spec fn spec_sunday(s: Seq<char>) -> Option<(Seq<char>, Weekday)> {
    if let Some(r) = spec_tag_ci(s, "sunday"@) {
        Some((r, Weekday::Sun))
    } else if let Some(r) = spec_tag_ci(s, "sunda"@) {
        Some((r, Weekday::Sun))
    } else if let Some(r) = spec_tag_ci(s, "sund"@) {
        Some((r, Weekday::Sun))
    } else if let Some(r) = spec_tag_ci(s, "sun"@) {
        Some((r, Weekday::Sun))
    } else {
        None
    }
}

/// Month name `january`, longest accepted abbreviation first.
pub open spec fn spec_january(s: Seq<char>) -> Option<(Seq<char>, Month)> {
    if let Some(r) = spec_tag_ci(s, "january"@) {
        Some((r, Month::January))
    } else if let Some(r) = spec_tag_ci(s, "januar"@) {
        Some((r, Month::January))
    } else if let Some(r) = spec_tag_ci(s, "janu"@) {
        Some((r, Month::January))
    } else if let Some(r) = spec_tag_ci(s, "jan"@) {
        Some((r, Month::January))
    } else {
        None
    }
}

/// Month name `february`, longest accepted abbreviation first.
pub open spec fn spec_february(s: Seq<char>) -> Option<(Seq<char>, Month)> {
    if let Some(r) = spec_tag_ci(s, "february"@) {
        Some((r, Month::February))
    } else if let Some(r) = spec_tag_ci(s, "februar"@) {
        Some((r, Month::February))
    } else if let Some(r) = spec_tag_ci(s, "februa"@) {
        Some((r, Month::February))
    } else if let Some(r) = spec_tag_ci(s, "febru"@) {
        Some((r, Month::February))
    } else if let Some(r) = spec_tag_ci(s, "febr"@) {
        Some((r, Month::February))
    } else if let Some(r) = spec_tag_ci(s, "feb"@) {
        Some((r, Month::February))
    } else {
        None
    }
}

/// Month name `march`, longest accepted abbreviation first.
pub open spec fn spec_march(s: Seq<char>) -> Option<(Seq<char>, Month)> {
    if let Some(r) = spec_tag_ci(s, "march"@) {
        Some((r, Month::March))
    } else if let Some(r) = spec_tag_ci(s, "marc"@) {
        Some((r, Month::March))
    } else if let Some(r) = spec_tag_ci(s, "mar"@) {
        Some((r, Month::March))
    } else {
        None
    }
}

/// Month name `april`, longest accepted abbreviation first.
pub open spec fn spec_april(s: Seq<char>) -> Option<(Seq<char>, Month)> {
    if let Some(r) = spec_tag_ci(s, "april"@) {
        Some((r, Month::April))
    } else if let Some(r) = spec_tag_ci(s, "apri"@) {
        Some((r, Month::April))
    } else if let Some(r) = spec_tag_ci(s, "apr"@) {
        Some((r, Month::April))
    } else {
        None
    }
}

/// Month name `may`, longest accepted abbreviation first.
pub open spec fn spec_may(s: Seq<char>) -> Option<(Seq<char>, Month)> {
    if let Some(r) = spec_tag_ci(s, "may"@) {
        Some((r, Month::May))
    } else {
        None
    }
}

/// Month name `june`, longest accepted abbreviation first.
pub open spec fn spec_june(s: Seq<char>) -> Option<(Seq<char>, Month)> {
    if let Some(r) = spec_tag_ci(s, "june"@) {
        Some((r, Month::June))
    } else if let Some(r) = spec_tag_ci(s, "jun"@) {
        Some((r, Month::June))
    } else {
        None
    }
}

/// Month name `july`, longest accepted abbreviation first.
pub open spec fn spec_july(s: Seq<char>) -> Option<(Seq<char>, Month)> {
    if let Some(r) = spec_tag_ci(s, "july"@) {
        Some((r, Month::July))
    } else if let Some(r) = spec_tag_ci(s, "jul"@) {
        Some((r, Month::July))
    } else {
        None
    }
}

/// Month name `august`, longest accepted abbreviation first.
pub open spec fn spec_august(s: Seq<char>) -> Option<(Seq<char>, Month)> {
    if let Some(r) = spec_tag_ci(s, "august"@) {
        Some((r, Month::August))
    } else if let Some(r) = spec_tag_ci(s, "augus"@) {
        Some((r, Month::August))
    } else if let Some(r) = spec_tag_ci(s, "augu"@) {
        Some((r, Month::August))
    } else if let Some(r) = spec_tag_ci(s, "aug"@) {
        Some((r, Month::August))
    } else {
        None
    }
}

/// Month name `september`, longest accepted abbreviation first.
pub open spec fn spec_september(s: Seq<char>) -> Option<(Seq<char>, Month)> {
    if let Some(r) = spec_tag_ci(s, "september"@) {
        Some((r, Month::September))
    } else if let Some(r) = spec_tag_ci(s, "septembe"@) {
        Some((r, Month::September))
    } else if let Some(r) = spec_tag_ci(s, "septemb"@) {
        Some((r, Month::September))
    } else if let Some(r) = spec_tag_ci(s, "septem"@) {
        Some((r, Month::September))
    } else if let Some(r) = spec_tag_ci(s, "septe"@) {
        Some((r, Month::September))
    } else if let Some(r) = spec_tag_ci(s, "sept"@) {
        Some((r, Month::September))
    } else if let Some(r) = spec_tag_ci(s, "sep"@) {
        Some((r, Month::September))
    } else {
        None
    }
}

/// Month name `october`, longest accepted abbreviation first.
pub open spec fn spec_october(s: Seq<char>) -> Option<(Seq<char>, Month)> {
    if let Some(r) = spec_tag_ci(s, "october"@) {
        Some((r, Month::October))
    } else if let Some(r) = spec_tag_ci(s, "octobe"@) {
        Some((r, Month::October))
    } else if let Some(r) = spec_tag_ci(s, "octob"@) {
        Some((r, Month::October))
    } else if let Some(r) = spec_tag_ci(s, "octo"@) {
        Some((r, Month::October))
    } else if let Some(r) = spec_tag_ci(s, "oct"@) {
        Some((r, Month::October))
    } else {
        None
    }
}

/// Month name `november`, longest accepted abbreviation first.
pub open spec fn spec_november(s: Seq<char>) -> Option<(Seq<char>, Month)> {
    if let Some(r) = spec_tag_ci(s, "november"@) {
        Some((r, Month::November))
    } else if let Some(r) = spec_tag_ci(s, "novembe"@) {
        Some((r, Month::November))
    } else if let Some(r) = spec_tag_ci(s, "novemb"@) {
        Some((r, Month::November))
    } else if let Some(r) = spec_tag_ci(s, "novem"@) {
        Some((r, Month::November))
    } else if let Some(r) = spec_tag_ci(s, "nove"@) {
        Some((r, Month::November))
    } else if let Some(r) = spec_tag_ci(s, "nov"@) {
        Some((r, Month::November))
    } else {
        None
    }
}

/// Month name `december`, longest accepted abbreviation first.
pub open spec fn spec_december(s: Seq<char>) -> Option<(Seq<char>, Month)> {
    if let Some(r) = spec_tag_ci(s, "december"@) {
        Some((r, Month::December))
    } else if let Some(r) = spec_tag_ci(s, "decembe"@) {
        Some((r, Month::December))
    } else if let Some(r) = spec_tag_ci(s, "decemb"@) {
        Some((r, Month::December))
    } else if let Some(r) = spec_tag_ci(s, "decem"@) {
        Some((r, Month::December))
    } else if let Some(r) = spec_tag_ci(s, "dece"@) {
        Some((r, Month::December))
    } else if let Some(r) = spec_tag_ci(s, "dec"@) {
        Some((r, Month::December))
    } else {
        None
    }
}

/// A weekday given by its numeric ISO code, as a bare number.
pub open spec fn spec_numeric_weekday(s: Seq<char>) -> Option<(Seq<char>, u32)> {
    match spec_number(s) {
        None => None,
        Some((s1, wday)) => {
            Some((s1, wday))
        },
    }
}

/// A `w`-prefixed ISO week number.
pub open spec fn spec_iso_week_number(s: Seq<char>) -> Option<(Seq<char>, u32)> {
    match spec_tag(s, "w"@) {
        None => None,
        Some(s1) => {
            match spec_number(s1) {
                None => None,
                Some((s2, week)) => {
                    Some((s2, week))
                },
            }
        },
    }
}

/// A dashed numeric date `Y-M-D`.
pub open spec fn spec_parse_dashed_date(s: Seq<char>) -> Option<(Seq<char>, DateTimeSpec)> {
    match spec_number(s) {
        None => None,
        Some((s1, year)) => {
            match spec_tag(s1, "-"@) {
                None => None,
                Some(s2) => {
                    match spec_number(s2) {
                        None => None,
                        Some((s3, month)) => {
                            match spec_tag(s3, "-"@) {
                                None => None,
                                Some(s4) => {
                                    match spec_number(s4) {
                                        None => None,
                                        Some((s5, day)) => {
                                            Some((s5, DateTimeSpec::Absolute(Absolute {
                                                year: Some(year),
                                                month: Some(month),
                                                day: Some(day),
                                                week: None,
                                                weekday: None,
                                                hour: None,
                                                minute: None,
                                                meridiem: None,
                                            })))
                                        },
                                    }
                                },
                            }
                        },
                    }
                },
            }
        },
    }
}

/// A slashed numeric date `M/D/Y`.
pub open spec fn spec_slashed_date_month_day_year(s: Seq<char>) -> Option<(Seq<char>, Absolute)> {
    match spec_number(s) {
        None => None,
        Some((s1, month)) => {
            match spec_tag(s1, "/"@) {
                None => None,
                Some(s2) => {
                    match spec_number(s2) {
                        None => None,
                        Some((s3, day)) => {
                            match spec_tag(s3, "/"@) {
                                None => None,
                                Some(s4) => {
                                    match spec_number(s4) {
                                        None => None,
                                        Some((s5, year)) => {
                                            Some((s5, Absolute {
                                                year: Some(year),
                                                month: Some(month),
                                                day: Some(day),
                                                week: None,
                                                weekday: None,
                                                hour: None,
                                                minute: None,
                                                meridiem: None,
                                            }))
                                        },
                                    }
                                },
                            }
                        },
                    }
                },
            }
        },
    }
}

/// A slashed numeric date `M/D`.
pub open spec fn spec_slashed_date_month_day(s: Seq<char>) -> Option<(Seq<char>, Absolute)> {
    match spec_number(s) {
        None => None,
        Some((s1, month)) => {
            match spec_tag(s1, "/"@) {
                None => None,
                Some(s2) => {
                    match spec_number(s2) {
                        None => None,
                        Some((s3, day)) => {
                            Some((s3, Absolute {
                                year: None,
                                month: Some(month),
                                day: Some(day),
                                week: None,
                                weekday: None,
                                hour: None,
                                minute: None,
                                meridiem: None,
                            }))
                        },
                    }
                },
            }
        },
    }
}

/// A slashed numeric date, with or without a year.
pub open spec fn spec_parse_slashed_date(s: Seq<char>) -> Option<(Seq<char>, DateTimeSpec)> {
    if let Some((r, v)) = spec_slashed_date_month_day_year(s) {
        Some((r, DateTimeSpec::Absolute(v)))
    } else if let Some((r, v)) = spec_slashed_date_month_day(s) {
        Some((r, DateTimeSpec::Absolute(v)))
    } else {
        None
    }
}

/// A bare weekday name.
pub open spec fn spec_parse_weekday(s: Seq<char>) -> Option<(Seq<char>, DateTimeSpec)> {
    match spec_weekday(s) {
        None => None,
        Some((s1, wday)) => {
            Some((s1, DateTimeSpec::Absolute(Absolute {
                year: None,
                month: None,
                day: None,
                week: None,
                weekday: Some(wday),
                hour: None,
                minute: None,
                meridiem: None,
            })))
        },
    }
}

/// A weekday by name or by numeric ISO code.
pub open spec fn spec_iso_week_day(s: Seq<char>) -> Option<(Seq<char>, u32)> {
    if spec_weekday(s) is Some {
        spec_weekday(s)
    } else if spec_numeric_weekday(s) is Some {
        spec_numeric_weekday(s)
    } else {
        None
    }
}

/// An ISO week date: year, `w`-prefixed week, weekday, separated by a dash or blanks.
pub open spec fn spec_parse_iso_date(s: Seq<char>) -> Option<(Seq<char>, DateTimeSpec)> {
    match spec_number(s) {
        None => None,
        Some((s1, year)) => {
            match spec_date_sep(s1) {
                None => None,
                Some(s2) => {
                    match spec_iso_week_number(s2) {
                        None => None,
                        Some((s3, week)) => {
                            match spec_date_sep(s3) {
                                None => None,
                                Some(s4) => {
                                    match spec_iso_week_day(s4) {
                                        None => None,
                                        Some((s5, wday)) => {
                                            Some((s5, DateTimeSpec::Absolute(Absolute {
                                                year: Some(year),
                                                month: None,
                                                day: None,
                                                week: Some(week),
                                                weekday: Some(wday),
                                                hour: None,
                                                minute: None,
                                                meridiem: None,
                                            })))
                                        },
                                    }
                                },
                            }
                        },
                    }
                },
            }
        },
    }
}

/// A month name followed by day and year.
pub open spec fn spec_parse_month_day_year(s: Seq<char>) -> Option<(Seq<char>, Absolute)> {
    match spec_month_as_number(s) {
        None => None,
        Some((s1, month)) => {
            match spec_tag(s1, " "@) {
                None => None,
                Some(s2) => {
                    match spec_number(s2) {
                        None => None,
                        Some((s3, day)) => {
                            match spec_tag(s3, " "@) {
                                None => None,
                                Some(s4) => {
                                    match spec_number(s4) {
                                        None => None,
                                        Some((s5, year)) => {
                                            Some((s5, Absolute {
                                                year: Some(year),
                                                month: Some(month),
                                                day: Some(day),
                                                week: None,
                                                weekday: None,
                                                hour: None,
                                                minute: None,
                                                meridiem: None,
                                            }))
                                        },
                                    }
                                },
                            }
                        },
                    }
                },
            }
        },
    }
}

/// A month name followed by a day.
pub open spec fn spec_parse_month_day(s: Seq<char>) -> Option<(Seq<char>, Absolute)> {
    match spec_month_as_number(s) {
        None => None,
        Some((s1, month)) => {
            match spec_tag(s1, " "@) {
                None => None,
                Some(s2) => {
                    match spec_number(s2) {
                        None => None,
                        Some((s3, day)) => {
                            Some((s3, Absolute {
                                year: None,
                                month: Some(month),
                                day: Some(day),
                                week: None,
                                weekday: None,
                                hour: None,
                                minute: None,
                                meridiem: None,
                            }))
                        },
                    }
                },
            }
        },
    }
}

/// A month name with day, and optionally a year.
pub open spec fn spec_parse_month_day_optional_year(s: Seq<char>) -> Option<(Seq<char>, DateTimeSpec)> {
    if let Some((r, v)) = spec_parse_month_day_year(s) {
        Some((r, DateTimeSpec::Absolute(v)))
    } else if let Some((r, v)) = spec_parse_month_day(s) {
        Some((r, DateTimeSpec::Absolute(v)))
    } else {
        None
    }
}

/// The `am` marker.
pub open spec fn spec_ante_meridiem(s: Seq<char>) -> Option<(Seq<char>, Meridiem)> {
    match spec_tag_ci(s, "am"@) {
        None => None,
        Some(s1) => {
            Some((s1, Meridiem::AM))
        },
    }
}

/// The `pm` marker.
pub open spec fn spec_poste_meridiem(s: Seq<char>) -> Option<(Seq<char>, Meridiem)> {
    match spec_tag_ci(s, "pm"@) {
        None => None,
        Some(s1) => {
            Some((s1, Meridiem::PM))
        },
    }
}

/// An `am` or `pm` marker.
pub open spec fn spec_meridiem(s: Seq<char>) -> Option<(Seq<char>, Meridiem)> {
    if spec_ante_meridiem(s) is Some {
        spec_ante_meridiem(s)
    } else if spec_poste_meridiem(s) is Some {
        spec_poste_meridiem(s)
    } else {
        None
    }
}

/// A clock time `H:MI` with an AM/PM marker.
pub open spec fn spec_hour_minute_meridiem(s: Seq<char>) -> Option<(Seq<char>, AbsoluteTime)> {
    match spec_number(s) {
        None => None,
        Some((s1, hour)) => {
            match spec_tag(s1, ":"@) {
                None => None,
                Some(s2) => {
                    match spec_number(s2) {
                        None => None,
                        Some((s3, minute)) => {
                            match spec_meridiem(s3) {
                                None => None,
                                Some((s4, mer)) => {
                                    Some((s4, AbsoluteTime {
                                        hour: Some(hour),
                                        minute: Some(minute),
                                        meridiem: Some(mer),
                                    }))
                                },
                            }
                        },
                    }
                },
            }
        },
    }
}

/// A bare hour with an AM/PM marker.
pub open spec fn spec_hour_meridiem(s: Seq<char>) -> Option<(Seq<char>, AbsoluteTime)> {
    match spec_number(s) {
        None => None,
        Some((s1, hour)) => {
            match spec_meridiem(s1) {
                None => None,
                Some((s2, mer)) => {
                    Some((s2, AbsoluteTime { hour: Some(hour), minute: None, meridiem: Some(mer) }))
                },
            }
        },
    }
}

/// A clock time `H:MI`.
pub open spec fn spec_hour_minute(s: Seq<char>) -> Option<(Seq<char>, AbsoluteTime)> {
    match spec_number(s) {
        None => None,
        Some((s1, hour)) => {
            match spec_tag(s1, ":"@) {
                None => None,
                Some(s2) => {
                    match spec_number(s2) {
                        None => None,
                        Some((s3, minute)) => {
                            Some((s3, AbsoluteTime {
                                hour: Some(hour),
                                minute: Some(minute),
                                meridiem: None,
                            }))
                        },
                    }
                },
            }
        },
    }
}

/// A clock time, with the marked forms tried first.
pub open spec fn spec_parse_time(s: Seq<char>) -> Option<(Seq<char>, AbsoluteTime)> {
    if spec_hour_minute_meridiem(s) is Some {
        spec_hour_minute_meridiem(s)
    } else if spec_hour_meridiem(s) is Some {
        spec_hour_meridiem(s)
    } else if spec_hour_minute(s) is Some {
        spec_hour_minute(s)
    } else {
        None
    }
}

/// A day, month name, and clock time `D <month> H:MI`.
pub open spec fn spec_parse_day_month_hour_minute(s: Seq<char>) -> Option<(Seq<char>, Absolute)> {
    match spec_number(s) {
        None => None,
        Some((s1, day)) => {
            match spec_tag(s1, " "@) {
                None => None,
                Some(s2) => {
                    match spec_month_as_number(s2) {
                        None => None,
                        Some((s3, month)) => {
                            match spec_tag(s3, " "@) {
                                None => None,
                                Some(s4) => {
                                    match spec_number(s4) {
                                        None => None,
                                        Some((s5, hour)) => {
                                            match spec_tag(s5, ":"@) {
                                                None => None,
                                                Some(s6) => {
                                                    match spec_number(s6) {
                                                        None => None,
                                                        Some((s7, minute)) => {
                                                            Some((s7, Absolute {
                                                                year: None,
                                                                month: Some(month),
                                                                day: Some(day),
                                                                week: None,
                                                                weekday: None,
                                                                hour: Some(hour),
                                                                minute: Some(minute),
                                                                meridiem: None,
                                                            }))
                                                        },
                                                    }
                                                },
                                            }
                                        },
                                    }
                                },
                            }
                        },
                    }
                },
            }
        },
    }
}

/// A bare day of the month.
pub open spec fn spec_parse_day_of_month(s: Seq<char>) -> Option<(Seq<char>, Absolute)> {
    match spec_number(s) {
        None => None,
        Some((s1, day)) => {
            Some((s1, Absolute {
                year: None,
                month: None,
                day: Some(day),
                week: None,
                weekday: None,
                hour: None,
                minute: None,
                meridiem: None,
            }))
        },
    }
}

/// A bare clock time, carried as an absolute specification.
pub open spec fn spec_parse_time_as_absolute(s: Seq<char>) -> Option<(Seq<char>, Absolute)> {
    match spec_parse_time(s) {
        None => None,
        Some((s1, time)) => {
            Some((s1, Absolute {
                year: None,
                month: None,
                day: None,
                week: None,
                weekday: None,
                hour: time.hour,
                minute: time.minute,
                meridiem: time.meridiem,
            }))
        },
    }
}

/// A day with month and clock time, a bare clock time, or a bare day, tried in that order.
pub open spec fn spec_parse_day_optional_month_optional_hour_minute(s: Seq<char>) -> Option<(Seq<char>, DateTimeSpec)> {
    if let Some((r, v)) = spec_parse_day_month_hour_minute(s) {
        Some((r, DateTimeSpec::Absolute(v)))
    } else if let Some((r, v)) = spec_parse_time_as_absolute(s) {
        Some((r, DateTimeSpec::Absolute(v)))
    } else if let Some((r, v)) = spec_parse_day_of_month(s) {
        Some((r, DateTimeSpec::Absolute(v)))
    } else {
        None
    }
}

/// A bare `w`-prefixed ISO week number.
pub open spec fn spec_parse_iso_week_number(s: Seq<char>) -> Option<(Seq<char>, DateTimeSpec)> {
    match spec_iso_week_number(s) {
        None => None,
        Some((s1, week)) => {
            Some((s1, DateTimeSpec::Absolute(Absolute {
                year: None,
                month: None,
                day: None,
                week: Some(week),
                weekday: None,
                hour: None,
                minute: None,
                meridiem: None,
            })))
        },
    }
}

/// A relative offset in hours: a number with an `h` suffix.
pub open spec fn spec_parse_relative_hours(s: Seq<char>) -> Option<(Seq<char>, Relative)> {
    match spec_number(s) {
        None => None,
        Some((s1, hours)) => {
            match spec_tag_ci(s1, "h"@) {
                None => None,
                Some(s2) => {
                    Some((s2, Relative {
                        hours: Some(hours),
                        days: None,
                        weeks: None,
                        weekdays: None,
                        months: None,
                        years: None,
                    }))
                },
            }
        },
    }
}

/// A relative offset in days: a number with a `d` suffix.
pub open spec fn spec_parse_relative_days(s: Seq<char>) -> Option<(Seq<char>, Relative)> {
    match spec_number(s) {
        None => None,
        Some((s1, days)) => {
            match spec_tag_ci(s1, "d"@) {
                None => None,
                Some(s2) => {
                    Some((s2, Relative {
                        hours: None,
                        days: Some(days),
                        weeks: None,
                        weekdays: None,
                        months: None,
                        years: None,
                    }))
                },
            }
        },
    }
}

/// A bare number: a relative offset in days.
pub open spec fn spec_parse_relative_implied_days(s: Seq<char>) -> Option<(Seq<char>, Relative)> {
    match spec_number(s) {
        None => None,
        Some((s1, days)) => {
            Some((s1, Relative {
                hours: None,
                days: Some(days),
                weeks: None,
                weekdays: None,
                months: None,
                years: None,
            }))
        },
    }
}

/// A relative offset in weeks: a number with a `w` suffix.
pub open spec fn spec_parse_relative_weeks(s: Seq<char>) -> Option<(Seq<char>, Relative)> {
    match spec_number(s) {
        None => None,
        Some((s1, weeks)) => {
            match spec_tag_ci(s1, "w"@) {
                None => None,
                Some(s2) => {
                    Some((s2, Relative {
                        hours: None,
                        days: None,
                        weeks: Some(weeks),
                        weekdays: None,
                        months: None,
                        years: None,
                    }))
                },
            }
        },
    }
}

/// A relative offset in months: a number with an `m` suffix.
pub open spec fn spec_parse_relative_months(s: Seq<char>) -> Option<(Seq<char>, Relative)> {
    match spec_number(s) {
        None => None,
        Some((s1, months)) => {
            match spec_tag_ci(s1, "m"@) {
                None => None,
                Some(s2) => {
                    Some((s2, Relative {
                        hours: None,
                        days: None,
                        weeks: None,
                        weekdays: None,
                        months: Some(months),
                        years: None,
                    }))
                },
            }
        },
    }
}

/// A relative offset in years: a number with a `y` suffix.
pub open spec fn spec_parse_relative_years(s: Seq<char>) -> Option<(Seq<char>, Relative)> {
    match spec_number(s) {
        None => None,
        Some((s1, years)) => {
            match spec_tag_ci(s1, "y"@) {
                None => None,
                Some(s2) => {
                    Some((s2, Relative {
                        hours: None,
                        days: None,
                        weeks: None,
                        weekdays: None,
                        months: None,
                        years: Some(years),
                    }))
                },
            }
        },
    }
}

/// A repeat count followed by a weekday name.
pub open spec fn spec_parse_relative_number_weekdays(s: Seq<char>) -> Option<(Seq<char>, Relative)> {
    match spec_number(s) {
        None => None,
        Some((s1, weeks)) => {
            match spec_weekday(s1) {
                None => None,
                Some((s2, wdays)) => {
                    Some((s2, Relative {
                        hours: None,
                        days: None,
                        weeks: Some(weeks),
                        weekdays: Some(wdays),
                        months: None,
                        years: None,
                    }))
                },
            }
        },
    }
}

/// A bare weekday name as a relative offset.
pub open spec fn spec_parse_relative_implied_one_weekday(s: Seq<char>) -> Option<(Seq<char>, Relative)> {
    match spec_weekday(s) {
        None => None,
        Some((s1, wdays)) => {
            Some((s1, Relative {
                hours: None,
                days: None,
                weeks: None,
                weekdays: Some(wdays),
                months: None,
                years: None,
            }))
        },
    }
}

/// A weekday walk, with or without a repeat count.
pub open spec fn spec_parse_relative_weekdays(s: Seq<char>) -> Option<(Seq<char>, Relative)> {
    if spec_parse_relative_number_weekdays(s) is Some {
        spec_parse_relative_number_weekdays(s)
    } else if spec_parse_relative_implied_one_weekday(s) is Some {
        spec_parse_relative_implied_one_weekday(s)
    } else {
        None
    }
}

/// A relative offset: a number with a unit suffix, a weekday walk, or a bare number of days.
pub open spec fn spec_parse_relative(s: Seq<char>) -> Option<(Seq<char>, Relative)> {
    if spec_parse_relative_hours(s) is Some {
        spec_parse_relative_hours(s)
    } else if spec_parse_relative_days(s) is Some {
        spec_parse_relative_days(s)
    } else if spec_parse_relative_weeks(s) is Some {
        spec_parse_relative_weeks(s)
    } else if spec_parse_relative_months(s) is Some {
        spec_parse_relative_months(s)
    } else if spec_parse_relative_years(s) is Some {
        spec_parse_relative_years(s)
    } else if spec_parse_relative_weekdays(s) is Some {
        spec_parse_relative_weekdays(s)
    } else if spec_parse_relative_implied_days(s) is Some {
        spec_parse_relative_implied_days(s)
    } else {
        None
    }
}

/// `.+<rel>`: a future offset from the current moment.
pub open spec fn spec_dot_plus_relative(s: Seq<char>) -> Option<(Seq<char>, DateTimeSpec)> {
    match spec_tag(s, "."@) {
        None => None,
        Some(s1) => {
            match spec_tag(s1, "+"@) {
                None => None,
                Some(s2) => {
                    match spec_parse_relative(s2) {
                        None => None,
                        Some((s3, rel)) => {
                            Some((s3, DateTimeSpec::NowRelativeFuture(rel)))
                        },
                    }
                },
            }
        },
    }
}

/// `.-<rel>`: a past offset from the current moment.  The dotted past
/// form uses a minus marker, mirroring the dotted future form.
pub open spec fn spec_dot_minus_relative(s: Seq<char>) -> Option<(Seq<char>, DateTimeSpec)> {
    match spec_tag(s, "."@) {
        None => None,
        Some(s1) => {
            match spec_tag(s1, "-"@) {
                None => None,
                Some(s2) => {
                    match spec_parse_relative(s2) {
                        None => None,
                        Some((s3, rel)) => {
                            Some((s3, DateTimeSpec::NowRelativePast(rel)))
                        },
                    }
                },
            }
        },
    }
}

/// A lone `.`: today.
pub open spec fn spec_dot_relative(s: Seq<char>) -> Option<(Seq<char>, DateTimeSpec)> {
    match spec_tag(s, "."@) {
        None => None,
        Some(s1) => {
            Some((s1, DateTimeSpec::NowRelativeFuture(Relative {
                hours: None,
                days: None,
                weeks: None,
                weekdays: None,
                months: None,
                years: None,
            })))
        },
    }
}

/// `+<rel>`: a future offset from the current moment.
pub open spec fn spec_plus_relative(s: Seq<char>) -> Option<(Seq<char>, DateTimeSpec)> {
    match spec_tag(s, "+"@) {
        None => None,
        Some(s1) => {
            match spec_parse_relative(s1) {
                None => None,
                Some((s2, rel)) => {
                    Some((s2, DateTimeSpec::NowRelativeFuture(rel)))
                },
            }
        },
    }
}

/// `-<rel>`: a past offset from the current moment.
pub open spec fn spec_minus_relative(s: Seq<char>) -> Option<(Seq<char>, DateTimeSpec)> {
    match spec_tag(s, "-"@) {
        None => None,
        Some(s1) => {
            match spec_parse_relative(s1) {
                None => None,
                Some((s2, rel)) => {
                    Some((s2, DateTimeSpec::NowRelativePast(rel)))
                },
            }
        },
    }
}

/// `++<rel>`: a future offset from the default baseline.
pub open spec fn spec_plus_plus_relative(s: Seq<char>) -> Option<(Seq<char>, DateTimeSpec)> {
    match spec_tag(s, "++"@) {
        None => None,
        Some(s1) => {
            match spec_parse_relative(s1) {
                None => None,
                Some((s2, rel)) => {
                    Some((s2, DateTimeSpec::DefaultRelativeFuture(rel)))
                },
            }
        },
    }
}

/// `--<rel>`: a past offset from the default baseline.
pub open spec fn spec_minus_minus_relative(s: Seq<char>) -> Option<(Seq<char>, DateTimeSpec)> {
    match spec_tag(s, "--"@) {
        None => None,
        Some(s1) => {
            match spec_parse_relative(s1) {
                None => None,
                Some((s2, rel)) => {
                    Some((s2, DateTimeSpec::DefaultRelativePast(rel)))
                },
            }
        },
    }
}

/// A duration `H:MI`.
pub open spec fn spec_parse_duration(s: Seq<char>) -> Option<(Seq<char>, RelativeTime)> {
    match spec_number(s) {
        None => None,
        Some((s1, hours)) => {
            match spec_tag(s1, ":"@) {
                None => None,
                Some(s2) => {
                    match spec_number(s2) {
                        None => None,
                        Some((s3, minutes)) => {
                            Some((s3, RelativeTime { hours: Some(hours), minutes: Some(minutes) }))
                        },
                    }
                },
            }
        },
    }
}

/// A clock time, `-` or `--`, and a second clock time.
pub open spec fn spec_parse_time_range(s: Seq<char>) -> Option<(Seq<char>, DateTimeSpec)> {
    match spec_parse_time(s) {
        None => None,
        Some((s1, start)) => {
            match spec_tag(s1, "-"@) {
                None => None,
                Some(s2) => {
                    let s3 = match spec_tag(s2, "-"@) {
                        Some(r) => r,
                        None => s2,
                    };
                    match spec_parse_time(s3) {
                        None => None,
                        Some((s4, end)) => {
                            Some((s4, DateTimeSpec::TimeRangeAbsoluteStartAbsoluteEnd(start, end)))
                        },
                    }
                },
            }
        },
    }
}

/// A clock time plus a duration: `time+H:MI`.
pub open spec fn spec_parse_time_duration(s: Seq<char>) -> Option<(Seq<char>, DateTimeSpec)> {
    match spec_parse_time(s) {
        None => None,
        Some((s1, start)) => {
            match spec_tag(s1, "+"@) {
                None => None,
                Some(s2) => {
                    match spec_parse_duration(s2) {
                        None => None,
                        Some((s3, dur)) => {
                            Some((s3, DateTimeSpec::TimeRangeAbsoluteStartRelativeEnd(start, dur)))
                        },
                    }
                },
            }
        },
    }
}

/// A weekday name, yielding the numeric code 1 (Monday) through 7
/// (Sunday).
pub open spec fn spec_weekday(s: Seq<char>) -> Option<(Seq<char>, u32)> {
    if let Some((r, wd)) = spec_monday(s) {
        Some((r, wd.spec_number_from_monday()))
    } else if let Some((r, wd)) = spec_tuesday(s) {
        Some((r, wd.spec_number_from_monday()))
    } else if let Some((r, wd)) = spec_wednesday(s) {
        Some((r, wd.spec_number_from_monday()))
    } else if let Some((r, wd)) = spec_thursday(s) {
        Some((r, wd.spec_number_from_monday()))
    } else if let Some((r, wd)) = spec_friday(s) {
        Some((r, wd.spec_number_from_monday()))
    } else if let Some((r, wd)) = spec_saturday(s) {
        Some((r, wd.spec_number_from_monday()))
    } else if let Some((r, wd)) = spec_sunday(s) {
        Some((r, wd.spec_number_from_monday()))
    } else {
        None
    }
}

/// A month name, tried in calendar order.
pub open spec fn spec_month(s: Seq<char>) -> Option<(Seq<char>, Month)> {
    if spec_january(s) is Some {
        spec_january(s)
    } else if spec_february(s) is Some {
        spec_february(s)
    } else if spec_march(s) is Some {
        spec_march(s)
    } else if spec_april(s) is Some {
        spec_april(s)
    } else if spec_may(s) is Some {
        spec_may(s)
    } else if spec_june(s) is Some {
        spec_june(s)
    } else if spec_july(s) is Some {
        spec_july(s)
    } else if spec_august(s) is Some {
        spec_august(s)
    } else if spec_september(s) is Some {
        spec_september(s)
    } else if spec_october(s) is Some {
        spec_october(s)
    } else if spec_november(s) is Some {
        spec_november(s)
    } else if spec_december(s) is Some {
        spec_december(s)
    } else {
        None
    }
}

/// A month name, yielding its numeric code 1 through 12.
pub open spec fn spec_month_as_number(s: Seq<char>) -> Option<(Seq<char>, u32)> {
    match spec_month(s) {
        None => None,
        Some((r, m)) => Some((r, m.spec_number_from_month())),
    }
}

/// A date separator: a dash, or a run of blanks.
pub open spec fn spec_date_sep(s: Seq<char>) -> Option<Seq<char>> {
    if spec_tag(s, "-"@) is Some {
        spec_tag(s, "-"@)
    } else {
        spec_space1(s)
    }
}

/// The full grammar: ordered alternation over every form, highest
/// priority first.
pub open spec fn spec_parse(s: Seq<char>) -> Option<(Seq<char>, DateTimeSpec)> {
    if spec_parse_dashed_date(s) is Some {
        spec_parse_dashed_date(s)
    } else if spec_parse_slashed_date(s) is Some {
        spec_parse_slashed_date(s)
    } else if spec_parse_iso_date(s) is Some {
        spec_parse_iso_date(s)
    } else if spec_parse_weekday(s) is Some {
        spec_parse_weekday(s)
    } else if spec_parse_month_day_optional_year(s) is Some {
        spec_parse_month_day_optional_year(s)
    } else if spec_parse_time_duration(s) is Some {
        spec_parse_time_duration(s)
    } else if spec_parse_time_range(s) is Some {
        spec_parse_time_range(s)
    } else if spec_parse_day_optional_month_optional_hour_minute(s) is Some {
        spec_parse_day_optional_month_optional_hour_minute(s)
    } else if spec_parse_iso_week_number(s) is Some {
        spec_parse_iso_week_number(s)
    } else if spec_dot_plus_relative(s) is Some {
        spec_dot_plus_relative(s)
    } else if spec_dot_minus_relative(s) is Some {
        spec_dot_minus_relative(s)
    } else if spec_dot_relative(s) is Some {
        spec_dot_relative(s)
    } else if spec_plus_relative(s) is Some {
        spec_plus_relative(s)
    } else if spec_minus_relative(s) is Some {
        spec_minus_relative(s)
    } else if spec_plus_plus_relative(s) is Some {
        spec_plus_plus_relative(s)
    } else if spec_minus_minus_relative(s) is Some {
        spec_minus_minus_relative(s)
    } else {
        None
    }
}

} // verus!
