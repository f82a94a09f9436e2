//! The executable recursive-descent parser.
//!
//! Every function returns the unconsumed remainder of its input together
//! with the parsed value, and is proved to return exactly what the
//! corresponding grammar function of [`crate::grammar`] describes.  On
//! failure a function reports the deepest input position its
//! alternatives reached, as a character index into its own input.
use vstd::prelude::*;

use crate::grammar::{
    ci_eq, digit_run_len, digits_value, is_digit_char, is_space_char, is_suffix_of,
    lemma_skip_is_suffix, lemma_suffix_len, lemma_suffix_refl, lemma_suffix_trans,
    lower_code, parses_to, rest_parses_to, space_run_len, spec_ante_meridiem, spec_april,
    spec_august, spec_date_sep, spec_december, spec_dot_minus_relative,
    spec_dot_plus_relative, spec_dot_relative, spec_february, spec_friday,
    spec_hour_meridiem, spec_hour_minute, spec_hour_minute_meridiem, spec_iso_week_day,
    spec_iso_week_number, spec_january, spec_july, spec_june, spec_march, spec_may,
    spec_meridiem, spec_minus_minus_relative, spec_minus_relative, spec_monday, spec_month,
    spec_month_as_number, spec_november, spec_number, spec_numeric_weekday, spec_october,
    spec_parse, spec_parse_dashed_date, spec_parse_day_month_hour_minute,
    spec_parse_day_of_month, spec_parse_day_optional_month_optional_hour_minute,
    spec_parse_duration, spec_parse_iso_date, spec_parse_iso_week_number,
    spec_parse_month_day, spec_parse_month_day_optional_year, spec_parse_month_day_year,
    spec_parse_relative, spec_parse_relative_days, spec_parse_relative_hours,
    spec_parse_relative_implied_days, spec_parse_relative_implied_one_weekday,
    spec_parse_relative_months, spec_parse_relative_number_weekdays,
    spec_parse_relative_weekdays, spec_parse_relative_weeks, spec_parse_relative_years,
    spec_parse_slashed_date, spec_parse_time, spec_parse_time_as_absolute,
    spec_parse_time_duration, spec_parse_time_range, spec_parse_weekday,
    spec_plus_plus_relative, spec_plus_relative, spec_poste_meridiem, spec_saturday,
    spec_september, spec_slashed_date_month_day, spec_slashed_date_month_day_year,
    spec_space1, spec_sunday, spec_tag, spec_tag_ci, spec_thursday, spec_tuesday,
    spec_wednesday, spec_weekday,
};
use crate::error::ClassificationError;
use crate::laws::{classified_shape_ok, lemma_classified_shapes};
use crate::model::{
    Absolute, AbsoluteTime, DateTimeSpec, Meridiem, Month, Relative, RelativeTime, Weekday,
};

verus! {

/// ASCII-lowercased code of a character.
fn lower32(c: char) -> (r: u32)
    ensures
        r as int == lower_code(c),
{
    let u = c as u32;
    if 65 <= u && u <= 90 {
        u + 32
    } else {
        u
    }
}

/// Consumes the literal `t` at the head of the input; on failure,
/// reports the index of the first mismatch.
fn tag<'a>(input: &'a str, t: &str) -> (r: Result<&'a str, usize>)
    ensures
        rest_parses_to(r, spec_tag(input@, t@), input@),
{
    let n = t.unicode_len();
    let len = input.unicode_len();
    let m = if n <= len {
        n
    } else {
        len
    };
    let mut i: usize = 0;
    while i < m
        invariant
            0 <= i <= m,
            m <= n,
            m <= len,
            n <= len || m == len,
            n == t@.len(),
            len == input@.len(),
            forall|j: int| 0 <= j < i ==> input@[j] == t@[j],
        decreases m - i,
    {
        let a = input.get_char(i);
        let b = t.get_char(i);
        if a != b {
            return Err(i);
        }
        i += 1;
    }
    if n > len {
        return Err(m);
    }
    let rest = input.substring_char(n, len);
    proof {
        assert(rest@ =~= input@.skip(n as int));
        lemma_skip_is_suffix(input@, n as int);
    }
    Ok(rest)
}

/// Consumes the literal `t` at the head of the input, ignoring ASCII
/// case; on failure, reports the index of the first mismatch.
fn tag_ci<'a>(input: &'a str, t: &str) -> (r: Result<&'a str, usize>)
    ensures
        rest_parses_to(r, spec_tag_ci(input@, t@), input@),
{
    let n = t.unicode_len();
    let len = input.unicode_len();
    let m = if n <= len {
        n
    } else {
        len
    };
    let mut i: usize = 0;
    while i < m
        invariant
            0 <= i <= m,
            m <= n,
            m <= len,
            n <= len || m == len,
            n == t@.len(),
            len == input@.len(),
            forall|j: int| 0 <= j < i ==> ci_eq(input@[j], t@[j]),
        decreases m - i,
    {
        let a = input.get_char(i);
        let b = t.get_char(i);
        if lower32(a) != lower32(b) {
            return Err(i);
        }
        i += 1;
    }
    if n > len {
        return Err(m);
    }
    let rest = input.substring_char(n, len);
    proof {
        assert(rest@ =~= input@.skip(n as int));
        lemma_skip_is_suffix(input@, n as int);
    }
    Ok(rest)
}

proof fn lemma_digit_run_id(s: Seq<char>, i: int)
    requires
        0 <= i <= s.len(),
        forall|j: int| 0 <= j < i ==> is_digit_char(s[j]),
        i == s.len() || !is_digit_char(s[i]),
    ensures
        digit_run_len(s) == i,
    decreases i,
{
    if i == 0 {
    } else {
        assert(is_digit_char(s[0]));
        lemma_digit_run_id(s.skip(1), i - 1);
    }
}

proof fn lemma_space_run_id(s: Seq<char>, i: int)
    requires
        0 <= i <= s.len(),
        forall|j: int| 0 <= j < i ==> is_space_char(s[j]),
        i == s.len() || !is_space_char(s[i]),
    ensures
        space_run_len(s) == i,
    decreases i,
{
    if i == 0 {
    } else {
        assert(is_space_char(s[0]));
        lemma_space_run_id(s.skip(1), i - 1);
    }
}

proof fn lemma_dv_step(s: Seq<char>, i: int)
    requires
        0 <= i < s.len(),
    ensures
        digits_value(s.take(i + 1)) == digits_value(s.take(i)) * 10 + (s[i] as u32 - 48),
{
    assert(s.take(i + 1).drop_last() =~= s.take(i));
    assert(s.take(i + 1).last() == s[i]);
}

proof fn lemma_dv_nonneg(s: Seq<char>)
    requires
        forall|j: int| 0 <= j < s.len() ==> is_digit_char(s[j]),
    ensures
        digits_value(s) >= 0,
    decreases s.len(),
{
    if s.len() > 0 {
        assert(forall|j: int|
            0 <= j < s.drop_last().len() ==> is_digit_char(s.drop_last()[j]));
        lemma_dv_nonneg(s.drop_last());
    }
}

/// Consumes the maximal run of decimal digits and parses it as a `u32`.
/// A run whose value does not fit is rejected, reporting the end of the
/// run.
fn number<'a>(input: &'a str) -> (r: Result<(&'a str, u32), usize>)
    ensures
        parses_to(r, spec_number(input@), input@),
{
    let len = input.unicode_len();
    let mut i: usize = 0;
    let mut val: u64 = 0;
    let mut over: bool = false;
    loop
        invariant
            0 <= i <= len,
            len == input@.len(),
            forall|j: int| 0 <= j < i ==> is_digit_char(input@[j]),
            !over ==> val == digits_value(input@.take(i as int)) && val <= u32::MAX,
            over ==> digits_value(input@.take(i as int)) > u32::MAX,
        ensures
            i == digit_run_len(input@),
            i <= len,
            len == input@.len(),
            !over ==> val == digits_value(input@.take(i as int)) && val <= u32::MAX,
            over ==> digits_value(input@.take(i as int)) > u32::MAX,
        decreases len - i,
    {
        if i == len {
            proof {
                lemma_digit_run_id(input@, i as int);
            }
            break ;
        }
        let c = input.get_char(i);
        let u = c as u32;
        if !(48 <= u && u <= 57) {
            proof {
                lemma_digit_run_id(input@, i as int);
            }
            break ;
        }
        proof {
            lemma_dv_step(input@, i as int);
            assert(forall|j: int|
                0 <= j < input@.take(i as int).len() ==> is_digit_char(
                    input@.take(i as int)[j],
                ));
            lemma_dv_nonneg(input@.take(i as int));
        }
        if !over {
            val = val * 10 + (u - 48) as u64;
            if val > u32::MAX as u64 {
                over = true;
            }
        }
        i += 1;
    }
    if i == 0 || over {
        return Err(i);
    }
    let rest = input.substring_char(i, len);
    proof {
        assert(rest@ =~= input@.skip(i as int));
        lemma_skip_is_suffix(input@, i as int);
    }
    Ok((rest, val as u32))
}

/// Consumes one or more blank characters.
fn space1<'a>(input: &'a str) -> (r: Result<&'a str, usize>)
    ensures
        rest_parses_to(r, spec_space1(input@), input@),
{
    let len = input.unicode_len();
    let mut i: usize = 0;
    loop
        invariant
            0 <= i <= len,
            len == input@.len(),
            forall|j: int| 0 <= j < i ==> is_space_char(input@[j]),
        ensures
            i == space_run_len(input@),
            i <= len,
            len == input@.len(),
        decreases len - i,
    {
        if i == len {
            proof {
                lemma_space_run_id(input@, i as int);
            }
            break ;
        }
        let c = input.get_char(i);
        if !(c == ' ' || c == '\t') {
            proof {
                lemma_space_run_id(input@, i as int);
            }
            break ;
        }
        i += 1;
    }
    if i == 0 {
        return Err(0);
    }
    let rest = input.substring_char(i, len);
    proof {
        assert(rest@ =~= input@.skip(i as int));
        lemma_skip_is_suffix(input@, i as int);
    }
    Ok(rest)
}


/// Weekday name `monday`, longest accepted abbreviation first.
pub fn monday<'a>(input: &'a str) -> (r: Result<(&'a str, Weekday), usize>)
    ensures
        parses_to(r, spec_monday(input@), input@),
{
    let mut deepest: usize = 0;
    match tag_ci(input, "monday") {
        Ok(rest) => { return Ok((rest, Weekday::Mon)); },
        Err(e) => {
            if e > deepest {
                deepest = e;
            }
        },
    }
    match tag_ci(input, "monda") {
        Ok(rest) => { return Ok((rest, Weekday::Mon)); },
        Err(e) => {
            if e > deepest {
                deepest = e;
            }
        },
    }
    match tag_ci(input, "mond") {
        Ok(rest) => { return Ok((rest, Weekday::Mon)); },
        Err(e) => {
            if e > deepest {
                deepest = e;
            }
        },
    }
    match tag_ci(input, "mon") {
        Ok(rest) => { return Ok((rest, Weekday::Mon)); },
        Err(e) => {
            if e > deepest {
                deepest = e;
            }
        },
    }
    Err(deepest)
}

/// Weekday name `tuesday`, longest accepted abbreviation first.
pub fn tuesday<'a>(input: &'a str) -> (r: Result<(&'a str, Weekday), usize>)
    ensures
        parses_to(r, spec_tuesday(input@), input@),
{
    let mut deepest: usize = 0;
    match tag_ci(input, "tuesday") {
        Ok(rest) => { return Ok((rest, Weekday::Tue)); },
        Err(e) => {
            if e > deepest {
                deepest = e;
            }
        },
    }
    match tag_ci(input, "tuesda") {
        Ok(rest) => { return Ok((rest, Weekday::Tue)); },
        Err(e) => {
            if e > deepest {
                deepest = e;
            }
        },
    }
    match tag_ci(input, "tuesd") {
        Ok(rest) => { return Ok((rest, Weekday::Tue)); },
        Err(e) => {
            if e > deepest {
                deepest = e;
            }
        },
    }
    match tag_ci(input, "tue") {
        Ok(rest) => { return Ok((rest, Weekday::Tue)); },
        Err(e) => {
            if e > deepest {
                deepest = e;
            }
        },
    }
    Err(deepest)
}

/// Weekday name `wednesday`, longest accepted abbreviation first.
pub fn wednesday<'a>(input: &'a str) -> (r: Result<(&'a str, Weekday), usize>)
    ensures
        parses_to(r, spec_wednesday(input@), input@),
{
    let mut deepest: usize = 0;
    match tag_ci(input, "wednesday") {
        Ok(rest) => { return Ok((rest, Weekday::Wed)); },
        Err(e) => {
            if e > deepest {
                deepest = e;
            }
        },
    }
    match tag_ci(input, "wednesda") {
        Ok(rest) => { return Ok((rest, Weekday::Wed)); },
        Err(e) => {
            if e > deepest {
                deepest = e;
            }
        },
    }
    match tag_ci(input, "wednesd") {
        Ok(rest) => { return Ok((rest, Weekday::Wed)); },
        Err(e) => {
            if e > deepest {
                deepest = e;
            }
        },
    }
    match tag_ci(input, "wednes") {
        Ok(rest) => { return Ok((rest, Weekday::Wed)); },
        Err(e) => {
            if e > deepest {
                deepest = e;
            }
        },
    }
    match tag_ci(input, "wedne") {
        Ok(rest) => { return Ok((rest, Weekday::Wed)); },
        Err(e) => {
            if e > deepest {
                deepest = e;
            }
        },
    }
    match tag_ci(input, "wedn") {
        Ok(rest) => { return Ok((rest, Weekday::Wed)); },
        Err(e) => {
            if e > deepest {
                deepest = e;
            }
        },
    }
    match tag_ci(input, "wed") {
        Ok(rest) => { return Ok((rest, Weekday::Wed)); },
        Err(e) => {
            if e > deepest {
                deepest = e;
            }
        },
    }
    Err(deepest)
}

/// Weekday name `thursday`, longest accepted abbreviation first.
pub fn thursday<'a>(input: &'a str) -> (r: Result<(&'a str, Weekday), usize>)
    ensures
        parses_to(r, spec_thursday(input@), input@),
{
    let mut deepest: usize = 0;
    match tag_ci(input, "thursday") {
        Ok(rest) => { return Ok((rest, Weekday::Thu)); },
        Err(e) => {
            if e > deepest {
                deepest = e;
            }
        },
    }
    match tag_ci(input, "thursda") {
        Ok(rest) => { return Ok((rest, Weekday::Thu)); },
        Err(e) => {
            if e > deepest {
                deepest = e;
            }
        },
    }
    match tag_ci(input, "thursd") {
        Ok(rest) => { return Ok((rest, Weekday::Thu)); },
        Err(e) => {
            if e > deepest {
                deepest = e;
            }
        },
    }
    match tag_ci(input, "thurs") {
        Ok(rest) => { return Ok((rest, Weekday::Thu)); },
        Err(e) => {
            if e > deepest {
                deepest = e;
            }
        },
    }
    match tag_ci(input, "thur") {
        Ok(rest) => { return Ok((rest, Weekday::Thu)); },
        Err(e) => {
            if e > deepest {
                deepest = e;
            }
        },
    }
    match tag_ci(input, "thu") {
        Ok(rest) => { return Ok((rest, Weekday::Thu)); },
        Err(e) => {
            if e > deepest {
                deepest = e;
            }
        },
    }
    Err(deepest)
}

/// Weekday name `friday`, longest accepted abbreviation first.
pub fn friday<'a>(input: &'a str) -> (r: Result<(&'a str, Weekday), usize>)
    ensures
        parses_to(r, spec_friday(input@), input@),
{
    let mut deepest: usize = 0;
    match tag_ci(input, "friday") {
        Ok(rest) => { return Ok((rest, Weekday::Fri)); },
        Err(e) => {
            if e > deepest {
                deepest = e;
            }
        },
    }
    match tag_ci(input, "frida") {
        Ok(rest) => { return Ok((rest, Weekday::Fri)); },
        Err(e) => {
            if e > deepest {
                deepest = e;
            }
        },
    }
    match tag_ci(input, "frid") {
        Ok(rest) => { return Ok((rest, Weekday::Fri)); },
        Err(e) => {
            if e > deepest {
                deepest = e;
            }
        },
    }
    match tag_ci(input, "fri") {
        Ok(rest) => { return Ok((rest, Weekday::Fri)); },
        Err(e) => {
            if e > deepest {
                deepest = e;
            }
        },
    }
    Err(deepest)
}

/// Weekday name `saturday`, longest accepted abbreviation first.
pub fn saturday<'a>(input: &'a str) -> (r: Result<(&'a str, Weekday), usize>)
    ensures
        parses_to(r, spec_saturday(input@), input@),
{
    let mut deepest: usize = 0;
    match tag_ci(input, "saturday") {
        Ok(rest) => { return Ok((rest, Weekday::Sat)); },
        Err(e) => {
            if e > deepest {
                deepest = e;
            }
        },
    }
    match tag_ci(input, "saturda") {
        Ok(rest) => { return Ok((rest, Weekday::Sat)); },
        Err(e) => {
            if e > deepest {
                deepest = e;
            }
        },
    }
    match tag_ci(input, "saturd") {
        Ok(rest) => { return Ok((rest, Weekday::Sat)); },
        Err(e) => {
            if e > deepest {
                deepest = e;
            }
        },
    }
    match tag_ci(input, "satur") {
        Ok(rest) => { return Ok((rest, Weekday::Sat)); },
        Err(e) => {
            if e > deepest {
                deepest = e;
            }
        },
    }
    match tag_ci(input, "satu") {
        Ok(rest) => { return Ok((rest, Weekday::Sat)); },
        Err(e) => {
            if e > deepest {
                deepest = e;
            }
        },
    }
    match tag_ci(input, "sat") {
        Ok(rest) => { return Ok((rest, Weekday::Sat)); },
        Err(e) => {
            if e > deepest {
                deepest = e;
            }
        },
    }
    Err(deepest)
}

/// Weekday name `sunday`, longest accepted abbreviation first.
pub fn sunday<'a>(input: &'a str) -> (r: Result<(&'a str, Weekday), usize>)
    ensures
        parses_to(r, spec_sunday(input@), input@),
{
    let mut deepest: usize = 0;
    match tag_ci(input, "sunday") {
        Ok(rest) => { return Ok((rest, Weekday::Sun)); },
        Err(e) => {
            if e > deepest {
                deepest = e;
            }
        },
    }
    match tag_ci(input, "sunda") {
        Ok(rest) => { return Ok((rest, Weekday::Sun)); },
        Err(e) => {
            if e > deepest {
                deepest = e;
            }
        },
    }
    match tag_ci(input, "sund") {
        Ok(rest) => { return Ok((rest, Weekday::Sun)); },
        Err(e) => {
            if e > deepest {
                deepest = e;
            }
        },
    }
    match tag_ci(input, "sun") {
        Ok(rest) => { return Ok((rest, Weekday::Sun)); },
        Err(e) => {
            if e > deepest {
                deepest = e;
            }
        },
    }
    Err(deepest)
}

/// Month name `january`, longest accepted abbreviation first.
pub fn january<'a>(input: &'a str) -> (r: Result<(&'a str, Month), usize>)
    ensures
        parses_to(r, spec_january(input@), input@),
{
    let mut deepest: usize = 0;
    match tag_ci(input, "january") {
        Ok(rest) => { return Ok((rest, Month::January)); },
        Err(e) => {
            if e > deepest {
                deepest = e;
            }
        },
    }
    match tag_ci(input, "januar") {
        Ok(rest) => { return Ok((rest, Month::January)); },
        Err(e) => {
            if e > deepest {
                deepest = e;
            }
        },
    }
    match tag_ci(input, "janu") {
        Ok(rest) => { return Ok((rest, Month::January)); },
        Err(e) => {
            if e > deepest {
                deepest = e;
            }
        },
    }
    match tag_ci(input, "jan") {
        Ok(rest) => { return Ok((rest, Month::January)); },
        Err(e) => {
            if e > deepest {
                deepest = e;
            }
        },
    }
    Err(deepest)
}

/// Month name `february`, longest accepted abbreviation first.
pub fn february<'a>(input: &'a str) -> (r: Result<(&'a str, Month), usize>)
    ensures
        parses_to(r, spec_february(input@), input@),
{
    let mut deepest: usize = 0;
    match tag_ci(input, "february") {
        Ok(rest) => { return Ok((rest, Month::February)); },
        Err(e) => {
            if e > deepest {
                deepest = e;
            }
        },
    }
    match tag_ci(input, "februar") {
        Ok(rest) => { return Ok((rest, Month::February)); },
        Err(e) => {
            if e > deepest {
                deepest = e;
            }
        },
    }
    match tag_ci(input, "februa") {
        Ok(rest) => { return Ok((rest, Month::February)); },
        Err(e) => {
            if e > deepest {
                deepest = e;
            }
        },
    }
    match tag_ci(input, "febru") {
        Ok(rest) => { return Ok((rest, Month::February)); },
        Err(e) => {
            if e > deepest {
                deepest = e;
            }
        },
    }
    match tag_ci(input, "febr") {
        Ok(rest) => { return Ok((rest, Month::February)); },
        Err(e) => {
            if e > deepest {
                deepest = e;
            }
        },
    }
    match tag_ci(input, "feb") {
        Ok(rest) => { return Ok((rest, Month::February)); },
        Err(e) => {
            if e > deepest {
                deepest = e;
            }
        },
    }
    Err(deepest)
}

/// Month name `march`, longest accepted abbreviation first.
pub fn march<'a>(input: &'a str) -> (r: Result<(&'a str, Month), usize>)
    ensures
        parses_to(r, spec_march(input@), input@),
{
    let mut deepest: usize = 0;
    match tag_ci(input, "march") {
        Ok(rest) => { return Ok((rest, Month::March)); },
        Err(e) => {
            if e > deepest {
                deepest = e;
            }
        },
    }
    match tag_ci(input, "marc") {
        Ok(rest) => { return Ok((rest, Month::March)); },
        Err(e) => {
            if e > deepest {
                deepest = e;
            }
        },
    }
    match tag_ci(input, "mar") {
        Ok(rest) => { return Ok((rest, Month::March)); },
        Err(e) => {
            if e > deepest {
                deepest = e;
            }
        },
    }
    Err(deepest)
}

/// Month name `april`, longest accepted abbreviation first.
pub fn april<'a>(input: &'a str) -> (r: Result<(&'a str, Month), usize>)
    ensures
        parses_to(r, spec_april(input@), input@),
{
    let mut deepest: usize = 0;
    match tag_ci(input, "april") {
        Ok(rest) => { return Ok((rest, Month::April)); },
        Err(e) => {
            if e > deepest {
                deepest = e;
            }
        },
    }
    match tag_ci(input, "apri") {
        Ok(rest) => { return Ok((rest, Month::April)); },
        Err(e) => {
            if e > deepest {
                deepest = e;
            }
        },
    }
    match tag_ci(input, "apr") {
        Ok(rest) => { return Ok((rest, Month::April)); },
        Err(e) => {
            if e > deepest {
                deepest = e;
            }
        },
    }
    Err(deepest)
}

/// Month name `may`, longest accepted abbreviation first.
pub fn may<'a>(input: &'a str) -> (r: Result<(&'a str, Month), usize>)
    ensures
        parses_to(r, spec_may(input@), input@),
{
    let mut deepest: usize = 0;
    match tag_ci(input, "may") {
        Ok(rest) => { return Ok((rest, Month::May)); },
        Err(e) => {
            if e > deepest {
                deepest = e;
            }
        },
    }
    Err(deepest)
}

/// Month name `june`, longest accepted abbreviation first.
pub fn june<'a>(input: &'a str) -> (r: Result<(&'a str, Month), usize>)
    ensures
        parses_to(r, spec_june(input@), input@),
{
    let mut deepest: usize = 0;
    match tag_ci(input, "june") {
        Ok(rest) => { return Ok((rest, Month::June)); },
        Err(e) => {
            if e > deepest {
                deepest = e;
            }
        },
    }
    match tag_ci(input, "jun") {
        Ok(rest) => { return Ok((rest, Month::June)); },
        Err(e) => {
            if e > deepest {
                deepest = e;
            }
        },
    }
    Err(deepest)
}

/// Month name `july`, longest accepted abbreviation first.
pub fn july<'a>(input: &'a str) -> (r: Result<(&'a str, Month), usize>)
    ensures
        parses_to(r, spec_july(input@), input@),
{
    let mut deepest: usize = 0;
    match tag_ci(input, "july") {
        Ok(rest) => { return Ok((rest, Month::July)); },
        Err(e) => {
            if e > deepest {
                deepest = e;
            }
        },
    }
    match tag_ci(input, "jul") {
        Ok(rest) => { return Ok((rest, Month::July)); },
        Err(e) => {
            if e > deepest {
                deepest = e;
            }
        },
    }
    Err(deepest)
}

/// Month name `august`, longest accepted abbreviation first.
pub fn august<'a>(input: &'a str) -> (r: Result<(&'a str, Month), usize>)
    ensures
        parses_to(r, spec_august(input@), input@),
{
    let mut deepest: usize = 0;
    match tag_ci(input, "august") {
        Ok(rest) => { return Ok((rest, Month::August)); },
        Err(e) => {
            if e > deepest {
                deepest = e;
            }
        },
    }
    match tag_ci(input, "augus") {
        Ok(rest) => { return Ok((rest, Month::August)); },
        Err(e) => {
            if e > deepest {
                deepest = e;
            }
        },
    }
    match tag_ci(input, "augu") {
        Ok(rest) => { return Ok((rest, Month::August)); },
        Err(e) => {
            if e > deepest {
                deepest = e;
            }
        },
    }
    match tag_ci(input, "aug") {
        Ok(rest) => { return Ok((rest, Month::August)); },
        Err(e) => {
            if e > deepest {
                deepest = e;
            }
        },
    }
    Err(deepest)
}

/// Month name `september`, longest accepted abbreviation first.
pub fn september<'a>(input: &'a str) -> (r: Result<(&'a str, Month), usize>)
    ensures
        parses_to(r, spec_september(input@), input@),
{
    let mut deepest: usize = 0;
    match tag_ci(input, "september") {
        Ok(rest) => { return Ok((rest, Month::September)); },
        Err(e) => {
            if e > deepest {
                deepest = e;
            }
        },
    }
    match tag_ci(input, "septembe") {
        Ok(rest) => { return Ok((rest, Month::September)); },
        Err(e) => {
            if e > deepest {
                deepest = e;
            }
        },
    }
    match tag_ci(input, "septemb") {
        Ok(rest) => { return Ok((rest, Month::September)); },
        Err(e) => {
            if e > deepest {
                deepest = e;
            }
        },
    }
    match tag_ci(input, "septem") {
        Ok(rest) => { return Ok((rest, Month::September)); },
        Err(e) => {
            if e > deepest {
                deepest = e;
            }
        },
    }
    match tag_ci(input, "septe") {
        Ok(rest) => { return Ok((rest, Month::September)); },
        Err(e) => {
            if e > deepest {
                deepest = e;
            }
        },
    }
    match tag_ci(input, "sept") {
        Ok(rest) => { return Ok((rest, Month::September)); },
        Err(e) => {
            if e > deepest {
                deepest = e;
            }
        },
    }
    match tag_ci(input, "sep") {
        Ok(rest) => { return Ok((rest, Month::September)); },
        Err(e) => {
            if e > deepest {
                deepest = e;
            }
        },
    }
    Err(deepest)
}

/// Month name `october`, longest accepted abbreviation first.
pub fn october<'a>(input: &'a str) -> (r: Result<(&'a str, Month), usize>)
    ensures
        parses_to(r, spec_october(input@), input@),
{
    let mut deepest: usize = 0;
    match tag_ci(input, "october") {
        Ok(rest) => { return Ok((rest, Month::October)); },
        Err(e) => {
            if e > deepest {
                deepest = e;
            }
        },
    }
    match tag_ci(input, "octobe") {
        Ok(rest) => { return Ok((rest, Month::October)); },
        Err(e) => {
            if e > deepest {
                deepest = e;
            }
        },
    }
    match tag_ci(input, "octob") {
        Ok(rest) => { return Ok((rest, Month::October)); },
        Err(e) => {
            if e > deepest {
                deepest = e;
            }
        },
    }
    match tag_ci(input, "octo") {
        Ok(rest) => { return Ok((rest, Month::October)); },
        Err(e) => {
            if e > deepest {
                deepest = e;
            }
        },
    }
    match tag_ci(input, "oct") {
        Ok(rest) => { return Ok((rest, Month::October)); },
        Err(e) => {
            if e > deepest {
                deepest = e;
            }
        },
    }
    Err(deepest)
}

/// Month name `november`, longest accepted abbreviation first.
pub fn november<'a>(input: &'a str) -> (r: Result<(&'a str, Month), usize>)
    ensures
        parses_to(r, spec_november(input@), input@),
{
    let mut deepest: usize = 0;
    match tag_ci(input, "november") {
        Ok(rest) => { return Ok((rest, Month::November)); },
        Err(e) => {
            if e > deepest {
                deepest = e;
            }
        },
    }
    match tag_ci(input, "novembe") {
        Ok(rest) => { return Ok((rest, Month::November)); },
        Err(e) => {
            if e > deepest {
                deepest = e;
            }
        },
    }
    match tag_ci(input, "novemb") {
        Ok(rest) => { return Ok((rest, Month::November)); },
        Err(e) => {
            if e > deepest {
                deepest = e;
            }
        },
    }
    match tag_ci(input, "novem") {
        Ok(rest) => { return Ok((rest, Month::November)); },
        Err(e) => {
            if e > deepest {
                deepest = e;
            }
        },
    }
    match tag_ci(input, "nove") {
        Ok(rest) => { return Ok((rest, Month::November)); },
        Err(e) => {
            if e > deepest {
                deepest = e;
            }
        },
    }
    match tag_ci(input, "nov") {
        Ok(rest) => { return Ok((rest, Month::November)); },
        Err(e) => {
            if e > deepest {
                deepest = e;
            }
        },
    }
    Err(deepest)
}

/// Month name `december`, longest accepted abbreviation first.
pub fn december<'a>(input: &'a str) -> (r: Result<(&'a str, Month), usize>)
    ensures
        parses_to(r, spec_december(input@), input@),
{
    let mut deepest: usize = 0;
    match tag_ci(input, "december") {
        Ok(rest) => { return Ok((rest, Month::December)); },
        Err(e) => {
            if e > deepest {
                deepest = e;
            }
        },
    }
    match tag_ci(input, "decembe") {
        Ok(rest) => { return Ok((rest, Month::December)); },
        Err(e) => {
            if e > deepest {
                deepest = e;
            }
        },
    }
    match tag_ci(input, "decemb") {
        Ok(rest) => { return Ok((rest, Month::December)); },
        Err(e) => {
            if e > deepest {
                deepest = e;
            }
        },
    }
    match tag_ci(input, "decem") {
        Ok(rest) => { return Ok((rest, Month::December)); },
        Err(e) => {
            if e > deepest {
                deepest = e;
            }
        },
    }
    match tag_ci(input, "dece") {
        Ok(rest) => { return Ok((rest, Month::December)); },
        Err(e) => {
            if e > deepest {
                deepest = e;
            }
        },
    }
    match tag_ci(input, "dec") {
        Ok(rest) => { return Ok((rest, Month::December)); },
        Err(e) => {
            if e > deepest {
                deepest = e;
            }
        },
    }
    Err(deepest)
}

/// A weekday name, yielding the numeric code 1 (Monday) through 7
/// (Sunday).
pub fn weekday<'a>(input: &'a str) -> (r: Result<(&'a str, u32), usize>)
    ensures
        parses_to(r, spec_weekday(input@), input@),
{
    let mut deepest: usize = 0;
    match monday(input) {
        Ok((rest, wd)) => { return Ok((rest, wd.number_from_monday())); },
        Err(e) => {
            if e > deepest {
                deepest = e;
            }
        },
    }
    match tuesday(input) {
        Ok((rest, wd)) => { return Ok((rest, wd.number_from_monday())); },
        Err(e) => {
            if e > deepest {
                deepest = e;
            }
        },
    }
    match wednesday(input) {
        Ok((rest, wd)) => { return Ok((rest, wd.number_from_monday())); },
        Err(e) => {
            if e > deepest {
                deepest = e;
            }
        },
    }
    match thursday(input) {
        Ok((rest, wd)) => { return Ok((rest, wd.number_from_monday())); },
        Err(e) => {
            if e > deepest {
                deepest = e;
            }
        },
    }
    match friday(input) {
        Ok((rest, wd)) => { return Ok((rest, wd.number_from_monday())); },
        Err(e) => {
            if e > deepest {
                deepest = e;
            }
        },
    }
    match saturday(input) {
        Ok((rest, wd)) => { return Ok((rest, wd.number_from_monday())); },
        Err(e) => {
            if e > deepest {
                deepest = e;
            }
        },
    }
    match sunday(input) {
        Ok((rest, wd)) => { return Ok((rest, wd.number_from_monday())); },
        Err(e) => {
            if e > deepest {
                deepest = e;
            }
        },
    }
    Err(deepest)
}

/// A month name, tried in calendar order.
pub fn month<'a>(input: &'a str) -> (r: Result<(&'a str, Month), usize>)
    ensures
        parses_to(r, spec_month(input@), input@),
{
    let mut deepest: usize = 0;
    match january(input) {
        Ok(x) => { return Ok(x); },
        Err(e) => {
            if e > deepest {
                deepest = e;
            }
        },
    }
    match february(input) {
        Ok(x) => { return Ok(x); },
        Err(e) => {
            if e > deepest {
                deepest = e;
            }
        },
    }
    match march(input) {
        Ok(x) => { return Ok(x); },
        Err(e) => {
            if e > deepest {
                deepest = e;
            }
        },
    }
    match april(input) {
        Ok(x) => { return Ok(x); },
        Err(e) => {
            if e > deepest {
                deepest = e;
            }
        },
    }
    match may(input) {
        Ok(x) => { return Ok(x); },
        Err(e) => {
            if e > deepest {
                deepest = e;
            }
        },
    }
    match june(input) {
        Ok(x) => { return Ok(x); },
        Err(e) => {
            if e > deepest {
                deepest = e;
            }
        },
    }
    match july(input) {
        Ok(x) => { return Ok(x); },
        Err(e) => {
            if e > deepest {
                deepest = e;
            }
        },
    }
    match august(input) {
        Ok(x) => { return Ok(x); },
        Err(e) => {
            if e > deepest {
                deepest = e;
            }
        },
    }
    match september(input) {
        Ok(x) => { return Ok(x); },
        Err(e) => {
            if e > deepest {
                deepest = e;
            }
        },
    }
    match october(input) {
        Ok(x) => { return Ok(x); },
        Err(e) => {
            if e > deepest {
                deepest = e;
            }
        },
    }
    match november(input) {
        Ok(x) => { return Ok(x); },
        Err(e) => {
            if e > deepest {
                deepest = e;
            }
        },
    }
    match december(input) {
        Ok(x) => { return Ok(x); },
        Err(e) => {
            if e > deepest {
                deepest = e;
            }
        },
    }
    Err(deepest)
}

/// A month name, yielding its numeric code 1 through 12.
fn month_as_number<'a>(input: &'a str) -> (r: Result<(&'a str, u32), usize>)
    ensures
        parses_to(r, spec_month_as_number(input@), input@),
{
    match month(input) {
        Ok((rest, m)) => Ok((rest, m.number_from_month())),
        Err(e) => Err(e),
    }
}

/// A date separator: a dash, or a run of blanks.
fn date_sep<'a>(input: &'a str) -> (r: Result<&'a str, usize>)
    ensures
        rest_parses_to(r, spec_date_sep(input@), input@),
{
    let e1 = match tag(input, "-") {
        Ok(x) => { return Ok(x); },
        Err(e) => e,
    };
    match space1(input) {
        Ok(x) => Ok(x),
        Err(e2) => Err(if e1 > e2 {
            e1
        } else {
            e2
        }),
    }
}

/// A weekday given by its numeric ISO code, as a bare number.
fn numeric_weekday<'a>(input: &'a str) -> (r: Result<(&'a str, u32), usize>)
    ensures
        parses_to(r, spec_numeric_weekday(input@), input@),
{
    let (s1, wday) = match number(input) {
        Ok(x) => x,
        Err(e) => { return Err(e); },
    };
    Ok((s1, wday))
}

/// A `w`-prefixed ISO week number.
fn iso_week_number<'a>(input: &'a str) -> (r: Result<(&'a str, u32), usize>)
    ensures
        parses_to(r, spec_iso_week_number(input@), input@),
{
    let s1 = match tag(input, "w") {
        Ok(x) => x,
        Err(e) => { return Err(e); },
    };
    let (s2, week) = match number(s1) {
        Ok(x) => x,
        Err(e) => {
            proof {
                lemma_suffix_len(s1@, input@);
            }
            return Err(input.unicode_len() - s1.unicode_len() + e);
        },
    };
    proof {
        lemma_suffix_trans(s2@, s1@, input@);
    }
    Ok((s2, week))
}

/// A dashed numeric date `Y-M-D`.
pub fn parse_dashed_date<'a>(input: &'a str) -> (r: Result<(&'a str, DateTimeSpec), usize>)
    ensures
        parses_to(r, spec_parse_dashed_date(input@), input@),
{
    let (s1, year) = match number(input) {
        Ok(x) => x,
        Err(e) => { return Err(e); },
    };
    let s2 = match tag(s1, "-") {
        Ok(x) => x,
        Err(e) => {
            proof {
                lemma_suffix_len(s1@, input@);
            }
            return Err(input.unicode_len() - s1.unicode_len() + e);
        },
    };
    proof {
        lemma_suffix_trans(s2@, s1@, input@);
    }
    let (s3, month) = match number(s2) {
        Ok(x) => x,
        Err(e) => {
            proof {
                lemma_suffix_len(s2@, input@);
            }
            return Err(input.unicode_len() - s2.unicode_len() + e);
        },
    };
    proof {
        lemma_suffix_trans(s3@, s2@, input@);
    }
    let s4 = match tag(s3, "-") {
        Ok(x) => x,
        Err(e) => {
            proof {
                lemma_suffix_len(s3@, input@);
            }
            return Err(input.unicode_len() - s3.unicode_len() + e);
        },
    };
    proof {
        lemma_suffix_trans(s4@, s3@, input@);
    }
    let (s5, day) = match number(s4) {
        Ok(x) => x,
        Err(e) => {
            proof {
                lemma_suffix_len(s4@, input@);
            }
            return Err(input.unicode_len() - s4.unicode_len() + e);
        },
    };
    proof {
        lemma_suffix_trans(s5@, s4@, input@);
    }
    Ok((s5, DateTimeSpec::Absolute(Absolute {
        year: Some(year),
        month: Some(month),
        day: Some(day),
        week: None,
        weekday: None,
        hour: None,
        minute: None,
        meridiem: None,
    })))
}

/// A slashed numeric date `M/D/Y`.
fn slashed_date_month_day_year<'a>(input: &'a str) -> (r: Result<(&'a str, Absolute), usize>)
    ensures
        parses_to(r, spec_slashed_date_month_day_year(input@), input@),
{
    let (s1, month) = match number(input) {
        Ok(x) => x,
        Err(e) => { return Err(e); },
    };
    let s2 = match tag(s1, "/") {
        Ok(x) => x,
        Err(e) => {
            proof {
                lemma_suffix_len(s1@, input@);
            }
            return Err(input.unicode_len() - s1.unicode_len() + e);
        },
    };
    proof {
        lemma_suffix_trans(s2@, s1@, input@);
    }
    let (s3, day) = match number(s2) {
        Ok(x) => x,
        Err(e) => {
            proof {
                lemma_suffix_len(s2@, input@);
            }
            return Err(input.unicode_len() - s2.unicode_len() + e);
        },
    };
    proof {
        lemma_suffix_trans(s3@, s2@, input@);
    }
    let s4 = match tag(s3, "/") {
        Ok(x) => x,
        Err(e) => {
            proof {
                lemma_suffix_len(s3@, input@);
            }
            return Err(input.unicode_len() - s3.unicode_len() + e);
        },
    };
    proof {
        lemma_suffix_trans(s4@, s3@, input@);
    }
    let (s5, year) = match number(s4) {
        Ok(x) => x,
        Err(e) => {
            proof {
                lemma_suffix_len(s4@, input@);
            }
            return Err(input.unicode_len() - s4.unicode_len() + e);
        },
    };
    proof {
        lemma_suffix_trans(s5@, s4@, input@);
    }
    Ok((s5, Absolute {
        year: Some(year),
        month: Some(month),
        day: Some(day),
        week: None,
        weekday: None,
        hour: None,
        minute: None,
        meridiem: None,
    }))
}

/// A slashed numeric date `M/D`.
fn slashed_date_month_day<'a>(input: &'a str) -> (r: Result<(&'a str, Absolute), usize>)
    ensures
        parses_to(r, spec_slashed_date_month_day(input@), input@),
{
    let (s1, month) = match number(input) {
        Ok(x) => x,
        Err(e) => { return Err(e); },
    };
    let s2 = match tag(s1, "/") {
        Ok(x) => x,
        Err(e) => {
            proof {
                lemma_suffix_len(s1@, input@);
            }
            return Err(input.unicode_len() - s1.unicode_len() + e);
        },
    };
    proof {
        lemma_suffix_trans(s2@, s1@, input@);
    }
    let (s3, day) = match number(s2) {
        Ok(x) => x,
        Err(e) => {
            proof {
                lemma_suffix_len(s2@, input@);
            }
            return Err(input.unicode_len() - s2.unicode_len() + e);
        },
    };
    proof {
        lemma_suffix_trans(s3@, s2@, input@);
    }
    Ok((s3, Absolute {
        year: None,
        month: Some(month),
        day: Some(day),
        week: None,
        weekday: None,
        hour: None,
        minute: None,
        meridiem: None,
    }))
}

/// A slashed numeric date, with or without a year.
pub fn parse_slashed_date<'a>(input: &'a str) -> (r: Result<(&'a str, DateTimeSpec), usize>)
    ensures
        parses_to(r, spec_parse_slashed_date(input@), input@),
{
    let mut deepest: usize = 0;
    match slashed_date_month_day_year(input) {
        Ok((rest, v)) => { return Ok((rest, DateTimeSpec::Absolute(v))); },
        Err(e) => {
            if e > deepest {
                deepest = e;
            }
        },
    }
    match slashed_date_month_day(input) {
        Ok((rest, v)) => { return Ok((rest, DateTimeSpec::Absolute(v))); },
        Err(e) => {
            if e > deepest {
                deepest = e;
            }
        },
    }
    Err(deepest)
}

/// A bare weekday name.
fn parse_weekday<'a>(input: &'a str) -> (r: Result<(&'a str, DateTimeSpec), usize>)
    ensures
        parses_to(r, spec_parse_weekday(input@), input@),
{
    let (s1, wday) = match weekday(input) {
        Ok(x) => x,
        Err(e) => { return Err(e); },
    };
    Ok((s1, DateTimeSpec::Absolute(Absolute {
        year: None,
        month: None,
        day: None,
        week: None,
        weekday: Some(wday),
        hour: None,
        minute: None,
        meridiem: None,
    })))
}

/// A weekday by name or by numeric ISO code.
fn iso_week_day<'a>(input: &'a str) -> (r: Result<(&'a str, u32), usize>)
    ensures
        parses_to(r, spec_iso_week_day(input@), input@),
{
    let mut deepest: usize = 0;
    match weekday(input) {
        Ok(x) => { return Ok(x); },
        Err(e) => {
            if e > deepest {
                deepest = e;
            }
        },
    }
    match numeric_weekday(input) {
        Ok(x) => { return Ok(x); },
        Err(e) => {
            if e > deepest {
                deepest = e;
            }
        },
    }
    Err(deepest)
}

/// An ISO week date: year, `w`-prefixed week, weekday, separated by a dash or blanks.
pub fn parse_iso_date<'a>(input: &'a str) -> (r: Result<(&'a str, DateTimeSpec), usize>)
    ensures
        parses_to(r, spec_parse_iso_date(input@), input@),
{
    let (s1, year) = match number(input) {
        Ok(x) => x,
        Err(e) => { return Err(e); },
    };
    let s2 = match date_sep(s1) {
        Ok(x) => x,
        Err(e) => {
            proof {
                lemma_suffix_len(s1@, input@);
            }
            return Err(input.unicode_len() - s1.unicode_len() + e);
        },
    };
    proof {
        lemma_suffix_trans(s2@, s1@, input@);
    }
    let (s3, week) = match iso_week_number(s2) {
        Ok(x) => x,
        Err(e) => {
            proof {
                lemma_suffix_len(s2@, input@);
            }
            return Err(input.unicode_len() - s2.unicode_len() + e);
        },
    };
    proof {
        lemma_suffix_trans(s3@, s2@, input@);
    }
    let s4 = match date_sep(s3) {
        Ok(x) => x,
        Err(e) => {
            proof {
                lemma_suffix_len(s3@, input@);
            }
            return Err(input.unicode_len() - s3.unicode_len() + e);
        },
    };
    proof {
        lemma_suffix_trans(s4@, s3@, input@);
    }
    let (s5, wday) = match iso_week_day(s4) {
        Ok(x) => x,
        Err(e) => {
            proof {
                lemma_suffix_len(s4@, input@);
            }
            return Err(input.unicode_len() - s4.unicode_len() + e);
        },
    };
    proof {
        lemma_suffix_trans(s5@, s4@, input@);
    }
    Ok((s5, DateTimeSpec::Absolute(Absolute {
        year: Some(year),
        month: None,
        day: None,
        week: Some(week),
        weekday: Some(wday),
        hour: None,
        minute: None,
        meridiem: None,
    })))
}

/// A month name followed by day and year.
fn parse_month_day_year<'a>(input: &'a str) -> (r: Result<(&'a str, Absolute), usize>)
    ensures
        parses_to(r, spec_parse_month_day_year(input@), input@),
{
    let (s1, month) = match month_as_number(input) {
        Ok(x) => x,
        Err(e) => { return Err(e); },
    };
    let s2 = match tag(s1, " ") {
        Ok(x) => x,
        Err(e) => {
            proof {
                lemma_suffix_len(s1@, input@);
            }
            return Err(input.unicode_len() - s1.unicode_len() + e);
        },
    };
    proof {
        lemma_suffix_trans(s2@, s1@, input@);
    }
    let (s3, day) = match number(s2) {
        Ok(x) => x,
        Err(e) => {
            proof {
                lemma_suffix_len(s2@, input@);
            }
            return Err(input.unicode_len() - s2.unicode_len() + e);
        },
    };
    proof {
        lemma_suffix_trans(s3@, s2@, input@);
    }
    let s4 = match tag(s3, " ") {
        Ok(x) => x,
        Err(e) => {
            proof {
                lemma_suffix_len(s3@, input@);
            }
            return Err(input.unicode_len() - s3.unicode_len() + e);
        },
    };
    proof {
        lemma_suffix_trans(s4@, s3@, input@);
    }
    let (s5, year) = match number(s4) {
        Ok(x) => x,
        Err(e) => {
            proof {
                lemma_suffix_len(s4@, input@);
            }
            return Err(input.unicode_len() - s4.unicode_len() + e);
        },
    };
    proof {
        lemma_suffix_trans(s5@, s4@, input@);
    }
    Ok((s5, Absolute {
        year: Some(year),
        month: Some(month),
        day: Some(day),
        week: None,
        weekday: None,
        hour: None,
        minute: None,
        meridiem: None,
    }))
}

/// A month name followed by a day.
fn parse_month_day<'a>(input: &'a str) -> (r: Result<(&'a str, Absolute), usize>)
    ensures
        parses_to(r, spec_parse_month_day(input@), input@),
{
    let (s1, month) = match month_as_number(input) {
        Ok(x) => x,
        Err(e) => { return Err(e); },
    };
    let s2 = match tag(s1, " ") {
        Ok(x) => x,
        Err(e) => {
            proof {
                lemma_suffix_len(s1@, input@);
            }
            return Err(input.unicode_len() - s1.unicode_len() + e);
        },
    };
    proof {
        lemma_suffix_trans(s2@, s1@, input@);
    }
    let (s3, day) = match number(s2) {
        Ok(x) => x,
        Err(e) => {
            proof {
                lemma_suffix_len(s2@, input@);
            }
            return Err(input.unicode_len() - s2.unicode_len() + e);
        },
    };
    proof {
        lemma_suffix_trans(s3@, s2@, input@);
    }
    Ok((s3, Absolute {
        year: None,
        month: Some(month),
        day: Some(day),
        week: None,
        weekday: None,
        hour: None,
        minute: None,
        meridiem: None,
    }))
}

/// A month name with day, and optionally a year.
fn parse_month_day_optional_year<'a>(input: &'a str) -> (r: Result<(&'a str, DateTimeSpec), usize>)
    ensures
        parses_to(r, spec_parse_month_day_optional_year(input@), input@),
{
    let mut deepest: usize = 0;
    match parse_month_day_year(input) {
        Ok((rest, v)) => { return Ok((rest, DateTimeSpec::Absolute(v))); },
        Err(e) => {
            if e > deepest {
                deepest = e;
            }
        },
    }
    match parse_month_day(input) {
        Ok((rest, v)) => { return Ok((rest, DateTimeSpec::Absolute(v))); },
        Err(e) => {
            if e > deepest {
                deepest = e;
            }
        },
    }
    Err(deepest)
}

/// The `am` marker.
fn ante_meridiem<'a>(input: &'a str) -> (r: Result<(&'a str, Meridiem), usize>)
    ensures
        parses_to(r, spec_ante_meridiem(input@), input@),
{
    let s1 = match tag_ci(input, "am") {
        Ok(x) => x,
        Err(e) => { return Err(e); },
    };
    Ok((s1, Meridiem::AM))
}

/// The `pm` marker.
fn poste_meridiem<'a>(input: &'a str) -> (r: Result<(&'a str, Meridiem), usize>)
    ensures
        parses_to(r, spec_poste_meridiem(input@), input@),
{
    let s1 = match tag_ci(input, "pm") {
        Ok(x) => x,
        Err(e) => { return Err(e); },
    };
    Ok((s1, Meridiem::PM))
}

/// An `am` or `pm` marker.
fn meridiem<'a>(input: &'a str) -> (r: Result<(&'a str, Meridiem), usize>)
    ensures
        parses_to(r, spec_meridiem(input@), input@),
{
    let mut deepest: usize = 0;
    match ante_meridiem(input) {
        Ok(x) => { return Ok(x); },
        Err(e) => {
            if e > deepest {
                deepest = e;
            }
        },
    }
    match poste_meridiem(input) {
        Ok(x) => { return Ok(x); },
        Err(e) => {
            if e > deepest {
                deepest = e;
            }
        },
    }
    Err(deepest)
}

/// A clock time `H:MI` with an AM/PM marker.
pub fn hour_minute_meridiem<'a>(input: &'a str) -> (r: Result<(&'a str, AbsoluteTime), usize>)
    ensures
        parses_to(r, spec_hour_minute_meridiem(input@), input@),
{
    let (s1, hour) = match number(input) {
        Ok(x) => x,
        Err(e) => { return Err(e); },
    };
    let s2 = match tag(s1, ":") {
        Ok(x) => x,
        Err(e) => {
            proof {
                lemma_suffix_len(s1@, input@);
            }
            return Err(input.unicode_len() - s1.unicode_len() + e);
        },
    };
    proof {
        lemma_suffix_trans(s2@, s1@, input@);
    }
    let (s3, minute) = match number(s2) {
        Ok(x) => x,
        Err(e) => {
            proof {
                lemma_suffix_len(s2@, input@);
            }
            return Err(input.unicode_len() - s2.unicode_len() + e);
        },
    };
    proof {
        lemma_suffix_trans(s3@, s2@, input@);
    }
    let (s4, mer) = match meridiem(s3) {
        Ok(x) => x,
        Err(e) => {
            proof {
                lemma_suffix_len(s3@, input@);
            }
            return Err(input.unicode_len() - s3.unicode_len() + e);
        },
    };
    proof {
        lemma_suffix_trans(s4@, s3@, input@);
    }
    Ok((s4, AbsoluteTime { hour: Some(hour), minute: Some(minute), meridiem: Some(mer) }))
}

/// A bare hour with an AM/PM marker.
pub fn hour_meridiem<'a>(input: &'a str) -> (r: Result<(&'a str, AbsoluteTime), usize>)
    ensures
        parses_to(r, spec_hour_meridiem(input@), input@),
{
    let (s1, hour) = match number(input) {
        Ok(x) => x,
        Err(e) => { return Err(e); },
    };
    let (s2, mer) = match meridiem(s1) {
        Ok(x) => x,
        Err(e) => {
            proof {
                lemma_suffix_len(s1@, input@);
            }
            return Err(input.unicode_len() - s1.unicode_len() + e);
        },
    };
    proof {
        lemma_suffix_trans(s2@, s1@, input@);
    }
    Ok((s2, AbsoluteTime { hour: Some(hour), minute: None, meridiem: Some(mer) }))
}

/// A clock time `H:MI`.
pub fn hour_minute<'a>(input: &'a str) -> (r: Result<(&'a str, AbsoluteTime), usize>)
    ensures
        parses_to(r, spec_hour_minute(input@), input@),
{
    let (s1, hour) = match number(input) {
        Ok(x) => x,
        Err(e) => { return Err(e); },
    };
    let s2 = match tag(s1, ":") {
        Ok(x) => x,
        Err(e) => {
            proof {
                lemma_suffix_len(s1@, input@);
            }
            return Err(input.unicode_len() - s1.unicode_len() + e);
        },
    };
    proof {
        lemma_suffix_trans(s2@, s1@, input@);
    }
    let (s3, minute) = match number(s2) {
        Ok(x) => x,
        Err(e) => {
            proof {
                lemma_suffix_len(s2@, input@);
            }
            return Err(input.unicode_len() - s2.unicode_len() + e);
        },
    };
    proof {
        lemma_suffix_trans(s3@, s2@, input@);
    }
    Ok((s3, AbsoluteTime { hour: Some(hour), minute: Some(minute), meridiem: None }))
}

/// A clock time, with the marked forms tried first.
fn parse_time<'a>(input: &'a str) -> (r: Result<(&'a str, AbsoluteTime), usize>)
    ensures
        parses_to(r, spec_parse_time(input@), input@),
{
    let mut deepest: usize = 0;
    match hour_minute_meridiem(input) {
        Ok(x) => { return Ok(x); },
        Err(e) => {
            if e > deepest {
                deepest = e;
            }
        },
    }
    match hour_meridiem(input) {
        Ok(x) => { return Ok(x); },
        Err(e) => {
            if e > deepest {
                deepest = e;
            }
        },
    }
    match hour_minute(input) {
        Ok(x) => { return Ok(x); },
        Err(e) => {
            if e > deepest {
                deepest = e;
            }
        },
    }
    Err(deepest)
}

/// A day, month name, and clock time `D <month> H:MI`.
pub fn parse_day_month_hour_minute<'a>(input: &'a str) -> (r: Result<(&'a str, Absolute), usize>)
    ensures
        parses_to(r, spec_parse_day_month_hour_minute(input@), input@),
{
    let (s1, day) = match number(input) {
        Ok(x) => x,
        Err(e) => { return Err(e); },
    };
    let s2 = match tag(s1, " ") {
        Ok(x) => x,
        Err(e) => {
            proof {
                lemma_suffix_len(s1@, input@);
            }
            return Err(input.unicode_len() - s1.unicode_len() + e);
        },
    };
    proof {
        lemma_suffix_trans(s2@, s1@, input@);
    }
    let (s3, month) = match month_as_number(s2) {
        Ok(x) => x,
        Err(e) => {
            proof {
                lemma_suffix_len(s2@, input@);
            }
            return Err(input.unicode_len() - s2.unicode_len() + e);
        },
    };
    proof {
        lemma_suffix_trans(s3@, s2@, input@);
    }
    let s4 = match tag(s3, " ") {
        Ok(x) => x,
        Err(e) => {
            proof {
                lemma_suffix_len(s3@, input@);
            }
            return Err(input.unicode_len() - s3.unicode_len() + e);
        },
    };
    proof {
        lemma_suffix_trans(s4@, s3@, input@);
    }
    let (s5, hour) = match number(s4) {
        Ok(x) => x,
        Err(e) => {
            proof {
                lemma_suffix_len(s4@, input@);
            }
            return Err(input.unicode_len() - s4.unicode_len() + e);
        },
    };
    proof {
        lemma_suffix_trans(s5@, s4@, input@);
    }
    let s6 = match tag(s5, ":") {
        Ok(x) => x,
        Err(e) => {
            proof {
                lemma_suffix_len(s5@, input@);
            }
            return Err(input.unicode_len() - s5.unicode_len() + e);
        },
    };
    proof {
        lemma_suffix_trans(s6@, s5@, input@);
    }
    let (s7, minute) = match number(s6) {
        Ok(x) => x,
        Err(e) => {
            proof {
                lemma_suffix_len(s6@, input@);
            }
            return Err(input.unicode_len() - s6.unicode_len() + e);
        },
    };
    proof {
        lemma_suffix_trans(s7@, s6@, input@);
    }
    Ok((s7, Absolute {
        year: None,
        month: Some(month),
        day: Some(day),
        week: None,
        weekday: None,
        hour: Some(hour),
        minute: Some(minute),
        meridiem: None,
    }))
}

/// A bare day of the month.
pub fn parse_day_of_month<'a>(input: &'a str) -> (r: Result<(&'a str, Absolute), usize>)
    ensures
        parses_to(r, spec_parse_day_of_month(input@), input@),
{
    let (s1, day) = match number(input) {
        Ok(x) => x,
        Err(e) => { return Err(e); },
    };
    Ok((s1, Absolute {
        year: None,
        month: None,
        day: Some(day),
        week: None,
        weekday: None,
        hour: None,
        minute: None,
        meridiem: None,
    }))
}

/// A bare clock time, carried as an absolute specification.
fn parse_time_as_absolute<'a>(input: &'a str) -> (r: Result<(&'a str, Absolute), usize>)
    ensures
        parses_to(r, spec_parse_time_as_absolute(input@), input@),
{
    let (s1, time) = match parse_time(input) {
        Ok(x) => x,
        Err(e) => { return Err(e); },
    };
    Ok((s1, Absolute {
        year: None,
        month: None,
        day: None,
        week: None,
        weekday: None,
        hour: time.hour,
        minute: time.minute,
        meridiem: time.meridiem,
    }))
}

/// A day with month and clock time, a bare clock time, or a bare day, tried in that order.
pub fn parse_day_optional_month_optional_hour_minute<'a>(input: &'a str) -> (r: Result<(&'a str, DateTimeSpec), usize>)
    ensures
        parses_to(r, spec_parse_day_optional_month_optional_hour_minute(input@), input@),
{
    let mut deepest: usize = 0;
    match parse_day_month_hour_minute(input) {
        Ok((rest, v)) => { return Ok((rest, DateTimeSpec::Absolute(v))); },
        Err(e) => {
            if e > deepest {
                deepest = e;
            }
        },
    }
    match parse_time_as_absolute(input) {
        Ok((rest, v)) => { return Ok((rest, DateTimeSpec::Absolute(v))); },
        Err(e) => {
            if e > deepest {
                deepest = e;
            }
        },
    }
    match parse_day_of_month(input) {
        Ok((rest, v)) => { return Ok((rest, DateTimeSpec::Absolute(v))); },
        Err(e) => {
            if e > deepest {
                deepest = e;
            }
        },
    }
    Err(deepest)
}

/// A bare `w`-prefixed ISO week number.
fn parse_iso_week_number<'a>(input: &'a str) -> (r: Result<(&'a str, DateTimeSpec), usize>)
    ensures
        parses_to(r, spec_parse_iso_week_number(input@), input@),
{
    let (s1, week) = match iso_week_number(input) {
        Ok(x) => x,
        Err(e) => { return Err(e); },
    };
    Ok((s1, DateTimeSpec::Absolute(Absolute {
        year: None,
        month: None,
        day: None,
        week: Some(week),
        weekday: None,
        hour: None,
        minute: None,
        meridiem: None,
    })))
}

/// A relative offset in hours: a number with an `h` suffix.
fn parse_relative_hours<'a>(input: &'a str) -> (r: Result<(&'a str, Relative), usize>)
    ensures
        parses_to(r, spec_parse_relative_hours(input@), input@),
{
    let (s1, hours) = match number(input) {
        Ok(x) => x,
        Err(e) => { return Err(e); },
    };
    let s2 = match tag_ci(s1, "h") {
        Ok(x) => x,
        Err(e) => {
            proof {
                lemma_suffix_len(s1@, input@);
            }
            return Err(input.unicode_len() - s1.unicode_len() + e);
        },
    };
    proof {
        lemma_suffix_trans(s2@, s1@, input@);
    }
    Ok((s2, Relative {
        hours: Some(hours),
        days: None,
        weeks: None,
        weekdays: None,
        months: None,
        years: None,
    }))
}

/// A relative offset in days: a number with a `d` suffix.
fn parse_relative_days<'a>(input: &'a str) -> (r: Result<(&'a str, Relative), usize>)
    ensures
        parses_to(r, spec_parse_relative_days(input@), input@),
{
    let (s1, days) = match number(input) {
        Ok(x) => x,
        Err(e) => { return Err(e); },
    };
    let s2 = match tag_ci(s1, "d") {
        Ok(x) => x,
        Err(e) => {
            proof {
                lemma_suffix_len(s1@, input@);
            }
            return Err(input.unicode_len() - s1.unicode_len() + e);
        },
    };
    proof {
        lemma_suffix_trans(s2@, s1@, input@);
    }
    Ok((s2, Relative {
        hours: None,
        days: Some(days),
        weeks: None,
        weekdays: None,
        months: None,
        years: None,
    }))
}

/// A bare number: a relative offset in days.
fn parse_relative_implied_days<'a>(input: &'a str) -> (r: Result<(&'a str, Relative), usize>)
    ensures
        parses_to(r, spec_parse_relative_implied_days(input@), input@),
{
    let (s1, days) = match number(input) {
        Ok(x) => x,
        Err(e) => { return Err(e); },
    };
    Ok((s1, Relative {
        hours: None,
        days: Some(days),
        weeks: None,
        weekdays: None,
        months: None,
        years: None,
    }))
}

/// A relative offset in weeks: a number with a `w` suffix.
fn parse_relative_weeks<'a>(input: &'a str) -> (r: Result<(&'a str, Relative), usize>)
    ensures
        parses_to(r, spec_parse_relative_weeks(input@), input@),
{
    let (s1, weeks) = match number(input) {
        Ok(x) => x,
        Err(e) => { return Err(e); },
    };
    let s2 = match tag_ci(s1, "w") {
        Ok(x) => x,
        Err(e) => {
            proof {
                lemma_suffix_len(s1@, input@);
            }
            return Err(input.unicode_len() - s1.unicode_len() + e);
        },
    };
    proof {
        lemma_suffix_trans(s2@, s1@, input@);
    }
    Ok((s2, Relative {
        hours: None,
        days: None,
        weeks: Some(weeks),
        weekdays: None,
        months: None,
        years: None,
    }))
}

/// A relative offset in months: a number with an `m` suffix.
fn parse_relative_months<'a>(input: &'a str) -> (r: Result<(&'a str, Relative), usize>)
    ensures
        parses_to(r, spec_parse_relative_months(input@), input@),
{
    let (s1, months) = match number(input) {
        Ok(x) => x,
        Err(e) => { return Err(e); },
    };
    let s2 = match tag_ci(s1, "m") {
        Ok(x) => x,
        Err(e) => {
            proof {
                lemma_suffix_len(s1@, input@);
            }
            return Err(input.unicode_len() - s1.unicode_len() + e);
        },
    };
    proof {
        lemma_suffix_trans(s2@, s1@, input@);
    }
    Ok((s2, Relative {
        hours: None,
        days: None,
        weeks: None,
        weekdays: None,
        months: Some(months),
        years: None,
    }))
}

/// A relative offset in years: a number with a `y` suffix.
fn parse_relative_years<'a>(input: &'a str) -> (r: Result<(&'a str, Relative), usize>)
    ensures
        parses_to(r, spec_parse_relative_years(input@), input@),
{
    let (s1, years) = match number(input) {
        Ok(x) => x,
        Err(e) => { return Err(e); },
    };
    let s2 = match tag_ci(s1, "y") {
        Ok(x) => x,
        Err(e) => {
            proof {
                lemma_suffix_len(s1@, input@);
            }
            return Err(input.unicode_len() - s1.unicode_len() + e);
        },
    };
    proof {
        lemma_suffix_trans(s2@, s1@, input@);
    }
    Ok((s2, Relative {
        hours: None,
        days: None,
        weeks: None,
        weekdays: None,
        months: None,
        years: Some(years),
    }))
}

/// A repeat count followed by a weekday name.
fn parse_relative_number_weekdays<'a>(input: &'a str) -> (r: Result<(&'a str, Relative), usize>)
    ensures
        parses_to(r, spec_parse_relative_number_weekdays(input@), input@),
{
    let (s1, weeks) = match number(input) {
        Ok(x) => x,
        Err(e) => { return Err(e); },
    };
    let (s2, wdays) = match weekday(s1) {
        Ok(x) => x,
        Err(e) => {
            proof {
                lemma_suffix_len(s1@, input@);
            }
            return Err(input.unicode_len() - s1.unicode_len() + e);
        },
    };
    proof {
        lemma_suffix_trans(s2@, s1@, input@);
    }
    Ok((s2, Relative {
        hours: None,
        days: None,
        weeks: Some(weeks),
        weekdays: Some(wdays),
        months: None,
        years: None,
    }))
}

/// A bare weekday name as a relative offset.
fn parse_relative_implied_one_weekday<'a>(input: &'a str) -> (r: Result<(&'a str, Relative), usize>)
    ensures
        parses_to(r, spec_parse_relative_implied_one_weekday(input@), input@),
{
    let (s1, wdays) = match weekday(input) {
        Ok(x) => x,
        Err(e) => { return Err(e); },
    };
    Ok((s1, Relative {
        hours: None,
        days: None,
        weeks: None,
        weekdays: Some(wdays),
        months: None,
        years: None,
    }))
}

/// A weekday walk, with or without a repeat count.
fn parse_relative_weekdays<'a>(input: &'a str) -> (r: Result<(&'a str, Relative), usize>)
    ensures
        parses_to(r, spec_parse_relative_weekdays(input@), input@),
{
    let mut deepest: usize = 0;
    match parse_relative_number_weekdays(input) {
        Ok(x) => { return Ok(x); },
        Err(e) => {
            if e > deepest {
                deepest = e;
            }
        },
    }
    match parse_relative_implied_one_weekday(input) {
        Ok(x) => { return Ok(x); },
        Err(e) => {
            if e > deepest {
                deepest = e;
            }
        },
    }
    Err(deepest)
}

/// A relative offset: a number with a unit suffix, a weekday walk, or a bare number of days.
fn parse_relative<'a>(input: &'a str) -> (r: Result<(&'a str, Relative), usize>)
    ensures
        parses_to(r, spec_parse_relative(input@), input@),
{
    let mut deepest: usize = 0;
    match parse_relative_hours(input) {
        Ok(x) => { return Ok(x); },
        Err(e) => {
            if e > deepest {
                deepest = e;
            }
        },
    }
    match parse_relative_days(input) {
        Ok(x) => { return Ok(x); },
        Err(e) => {
            if e > deepest {
                deepest = e;
            }
        },
    }
    match parse_relative_weeks(input) {
        Ok(x) => { return Ok(x); },
        Err(e) => {
            if e > deepest {
                deepest = e;
            }
        },
    }
    match parse_relative_months(input) {
        Ok(x) => { return Ok(x); },
        Err(e) => {
            if e > deepest {
                deepest = e;
            }
        },
    }
    match parse_relative_years(input) {
        Ok(x) => { return Ok(x); },
        Err(e) => {
            if e > deepest {
                deepest = e;
            }
        },
    }
    match parse_relative_weekdays(input) {
        Ok(x) => { return Ok(x); },
        Err(e) => {
            if e > deepest {
                deepest = e;
            }
        },
    }
    match parse_relative_implied_days(input) {
        Ok(x) => { return Ok(x); },
        Err(e) => {
            if e > deepest {
                deepest = e;
            }
        },
    }
    Err(deepest)
}

/// `.+<rel>`: a future offset from the current moment.
fn dot_plus_relative<'a>(input: &'a str) -> (r: Result<(&'a str, DateTimeSpec), usize>)
    ensures
        parses_to(r, spec_dot_plus_relative(input@), input@),
{
    let s1 = match tag(input, ".") {
        Ok(x) => x,
        Err(e) => { return Err(e); },
    };
    let s2 = match tag(s1, "+") {
        Ok(x) => x,
        Err(e) => {
            proof {
                lemma_suffix_len(s1@, input@);
            }
            return Err(input.unicode_len() - s1.unicode_len() + e);
        },
    };
    proof {
        lemma_suffix_trans(s2@, s1@, input@);
    }
    let (s3, rel) = match parse_relative(s2) {
        Ok(x) => x,
        Err(e) => {
            proof {
                lemma_suffix_len(s2@, input@);
            }
            return Err(input.unicode_len() - s2.unicode_len() + e);
        },
    };
    proof {
        lemma_suffix_trans(s3@, s2@, input@);
    }
    Ok((s3, DateTimeSpec::NowRelativeFuture(rel)))
}

/// `.-<rel>`: a past offset from the current moment.  The dotted past
/// form uses a minus marker, mirroring the dotted future form.
fn dot_minus_relative<'a>(input: &'a str) -> (r: Result<(&'a str, DateTimeSpec), usize>)
    ensures
        parses_to(r, spec_dot_minus_relative(input@), input@),
{
    let s1 = match tag(input, ".") {
        Ok(x) => x,
        Err(e) => { return Err(e); },
    };
    let s2 = match tag(s1, "-") {
        Ok(x) => x,
        Err(e) => {
            proof {
                lemma_suffix_len(s1@, input@);
            }
            return Err(input.unicode_len() - s1.unicode_len() + e);
        },
    };
    proof {
        lemma_suffix_trans(s2@, s1@, input@);
    }
    let (s3, rel) = match parse_relative(s2) {
        Ok(x) => x,
        Err(e) => {
            proof {
                lemma_suffix_len(s2@, input@);
            }
            return Err(input.unicode_len() - s2.unicode_len() + e);
        },
    };
    proof {
        lemma_suffix_trans(s3@, s2@, input@);
    }
    Ok((s3, DateTimeSpec::NowRelativePast(rel)))
}

/// A lone `.`: today.
fn dot_relative<'a>(input: &'a str) -> (r: Result<(&'a str, DateTimeSpec), usize>)
    ensures
        parses_to(r, spec_dot_relative(input@), input@),
{
    let s1 = match tag(input, ".") {
        Ok(x) => x,
        Err(e) => { return Err(e); },
    };
    Ok((s1, DateTimeSpec::NowRelativeFuture(Relative {
        hours: None,
        days: None,
        weeks: None,
        weekdays: None,
        months: None,
        years: None,
    })))
}

/// `+<rel>`: a future offset from the current moment.
fn plus_relative<'a>(input: &'a str) -> (r: Result<(&'a str, DateTimeSpec), usize>)
    ensures
        parses_to(r, spec_plus_relative(input@), input@),
{
    let s1 = match tag(input, "+") {
        Ok(x) => x,
        Err(e) => { return Err(e); },
    };
    let (s2, rel) = match parse_relative(s1) {
        Ok(x) => x,
        Err(e) => {
            proof {
                lemma_suffix_len(s1@, input@);
            }
            return Err(input.unicode_len() - s1.unicode_len() + e);
        },
    };
    proof {
        lemma_suffix_trans(s2@, s1@, input@);
    }
    Ok((s2, DateTimeSpec::NowRelativeFuture(rel)))
}

/// `-<rel>`: a past offset from the current moment.
fn minus_relative<'a>(input: &'a str) -> (r: Result<(&'a str, DateTimeSpec), usize>)
    ensures
        parses_to(r, spec_minus_relative(input@), input@),
{
    let s1 = match tag(input, "-") {
        Ok(x) => x,
        Err(e) => { return Err(e); },
    };
    let (s2, rel) = match parse_relative(s1) {
        Ok(x) => x,
        Err(e) => {
            proof {
                lemma_suffix_len(s1@, input@);
            }
            return Err(input.unicode_len() - s1.unicode_len() + e);
        },
    };
    proof {
        lemma_suffix_trans(s2@, s1@, input@);
    }
    Ok((s2, DateTimeSpec::NowRelativePast(rel)))
}

/// `++<rel>`: a future offset from the default baseline.
fn plus_plus_relative<'a>(input: &'a str) -> (r: Result<(&'a str, DateTimeSpec), usize>)
    ensures
        parses_to(r, spec_plus_plus_relative(input@), input@),
{
    let s1 = match tag(input, "++") {
        Ok(x) => x,
        Err(e) => { return Err(e); },
    };
    let (s2, rel) = match parse_relative(s1) {
        Ok(x) => x,
        Err(e) => {
            proof {
                lemma_suffix_len(s1@, input@);
            }
            return Err(input.unicode_len() - s1.unicode_len() + e);
        },
    };
    proof {
        lemma_suffix_trans(s2@, s1@, input@);
    }
    Ok((s2, DateTimeSpec::DefaultRelativeFuture(rel)))
}

/// `--<rel>`: a past offset from the default baseline.
fn minus_minus_relative<'a>(input: &'a str) -> (r: Result<(&'a str, DateTimeSpec), usize>)
    ensures
        parses_to(r, spec_minus_minus_relative(input@), input@),
{
    let s1 = match tag(input, "--") {
        Ok(x) => x,
        Err(e) => { return Err(e); },
    };
    let (s2, rel) = match parse_relative(s1) {
        Ok(x) => x,
        Err(e) => {
            proof {
                lemma_suffix_len(s1@, input@);
            }
            return Err(input.unicode_len() - s1.unicode_len() + e);
        },
    };
    proof {
        lemma_suffix_trans(s2@, s1@, input@);
    }
    Ok((s2, DateTimeSpec::DefaultRelativePast(rel)))
}

/// A duration `H:MI`.
fn parse_duration<'a>(input: &'a str) -> (r: Result<(&'a str, RelativeTime), usize>)
    ensures
        parses_to(r, spec_parse_duration(input@), input@),
{
    let (s1, hours) = match number(input) {
        Ok(x) => x,
        Err(e) => { return Err(e); },
    };
    let s2 = match tag(s1, ":") {
        Ok(x) => x,
        Err(e) => {
            proof {
                lemma_suffix_len(s1@, input@);
            }
            return Err(input.unicode_len() - s1.unicode_len() + e);
        },
    };
    proof {
        lemma_suffix_trans(s2@, s1@, input@);
    }
    let (s3, minutes) = match number(s2) {
        Ok(x) => x,
        Err(e) => {
            proof {
                lemma_suffix_len(s2@, input@);
            }
            return Err(input.unicode_len() - s2.unicode_len() + e);
        },
    };
    proof {
        lemma_suffix_trans(s3@, s2@, input@);
    }
    Ok((s3, RelativeTime { hours: Some(hours), minutes: Some(minutes) }))
}

/// A clock time, `-` or `--`, and a second clock time.
fn parse_time_range<'a>(input: &'a str) -> (r: Result<(&'a str, DateTimeSpec), usize>)
    ensures
        parses_to(r, spec_parse_time_range(input@), input@),
{
    let (s1, start) = match parse_time(input) {
        Ok(x) => x,
        Err(e) => { return Err(e); },
    };
    let s2 = match tag(s1, "-") {
        Ok(x) => x,
        Err(e) => {
            proof {
                lemma_suffix_len(s1@, input@);
            }
            return Err(input.unicode_len() - s1.unicode_len() + e);
        },
    };
    proof {
        lemma_suffix_trans(s2@, s1@, input@);
    }
    let s3 = match tag(s2, "-") {
        Ok(x) => x,
        Err(_) => s2,
    };
    proof {
        lemma_suffix_refl(s2@);
        lemma_suffix_trans(s3@, s2@, input@);
    }
    let (s4, end) = match parse_time(s3) {
        Ok(x) => x,
        Err(e) => {
            proof {
                lemma_suffix_len(s3@, input@);
            }
            return Err(input.unicode_len() - s3.unicode_len() + e);
        },
    };
    proof {
        lemma_suffix_trans(s4@, s3@, input@);
    }
    Ok((s4, DateTimeSpec::TimeRangeAbsoluteStartAbsoluteEnd(start, end)))
}

/// A clock time plus a duration: `time+H:MI`.
fn parse_time_duration<'a>(input: &'a str) -> (r: Result<(&'a str, DateTimeSpec), usize>)
    ensures
        parses_to(r, spec_parse_time_duration(input@), input@),
{
    let (s1, start) = match parse_time(input) {
        Ok(x) => x,
        Err(e) => { return Err(e); },
    };
    let s2 = match tag(s1, "+") {
        Ok(x) => x,
        Err(e) => {
            proof {
                lemma_suffix_len(s1@, input@);
            }
            return Err(input.unicode_len() - s1.unicode_len() + e);
        },
    };
    proof {
        lemma_suffix_trans(s2@, s1@, input@);
    }
    let (s3, dur) = match parse_duration(s2) {
        Ok(x) => x,
        Err(e) => {
            proof {
                lemma_suffix_len(s2@, input@);
            }
            return Err(input.unicode_len() - s2.unicode_len() + e);
        },
    };
    proof {
        lemma_suffix_trans(s3@, s2@, input@);
    }
    Ok((s3, DateTimeSpec::TimeRangeAbsoluteStartRelativeEnd(start, dur)))
}

/// Classifies a text fragment against the grammar.
///
/// On success the unconsumed remainder is returned alongside the
/// classification; a fully consumed input leaves an empty remainder, and
/// a partial match leaves exactly the untouched trailing substring.
/// Classification fails precisely when no alternative of the grammar
/// matches a prefix of the input; the failure reports the deepest input
/// position any alternative reached.
pub fn parse<'a>(input: &'a str) -> (r: Result<(&'a str, DateTimeSpec), ClassificationError>)
    ensures
        match spec_parse(input@) {
            Some(p) => r matches Ok(q) && q.0@ == p.0 && q.1 == p.1,
            None => r matches Err(e) && e.position <= input@.len(),
        },
        r matches Ok(q) ==> is_suffix_of(q.0@, input@),
        r matches Ok(q) ==> classified_shape_ok(q.1),
{
    proof {
        lemma_classified_shapes(input@);
    }
    let mut deepest: usize = 0;
    match parse_dashed_date(input) {
        Ok(x) => { return Ok(x); },
        Err(e) => {
            if e > deepest {
                deepest = e;
            }
        },
    }
    match parse_slashed_date(input) {
        Ok(x) => { return Ok(x); },
        Err(e) => {
            if e > deepest {
                deepest = e;
            }
        },
    }
    match parse_iso_date(input) {
        Ok(x) => { return Ok(x); },
        Err(e) => {
            if e > deepest {
                deepest = e;
            }
        },
    }
    match parse_weekday(input) {
        Ok(x) => { return Ok(x); },
        Err(e) => {
            if e > deepest {
                deepest = e;
            }
        },
    }
    match parse_month_day_optional_year(input) {
        Ok(x) => { return Ok(x); },
        Err(e) => {
            if e > deepest {
                deepest = e;
            }
        },
    }
    match parse_time_duration(input) {
        Ok(x) => { return Ok(x); },
        Err(e) => {
            if e > deepest {
                deepest = e;
            }
        },
    }
    match parse_time_range(input) {
        Ok(x) => { return Ok(x); },
        Err(e) => {
            if e > deepest {
                deepest = e;
            }
        },
    }
    match parse_day_optional_month_optional_hour_minute(input) {
        Ok(x) => { return Ok(x); },
        Err(e) => {
            if e > deepest {
                deepest = e;
            }
        },
    }
    match parse_iso_week_number(input) {
        Ok(x) => { return Ok(x); },
        Err(e) => {
            if e > deepest {
                deepest = e;
            }
        },
    }
    match dot_plus_relative(input) {
        Ok(x) => { return Ok(x); },
        Err(e) => {
            if e > deepest {
                deepest = e;
            }
        },
    }
    match dot_minus_relative(input) {
        Ok(x) => { return Ok(x); },
        Err(e) => {
            if e > deepest {
                deepest = e;
            }
        },
    }
    match dot_relative(input) {
        Ok(x) => { return Ok(x); },
        Err(e) => {
            if e > deepest {
                deepest = e;
            }
        },
    }
    match plus_relative(input) {
        Ok(x) => { return Ok(x); },
        Err(e) => {
            if e > deepest {
                deepest = e;
            }
        },
    }
    match minus_relative(input) {
        Ok(x) => { return Ok(x); },
        Err(e) => {
            if e > deepest {
                deepest = e;
            }
        },
    }
    match plus_plus_relative(input) {
        Ok(x) => { return Ok(x); },
        Err(e) => {
            if e > deepest {
                deepest = e;
            }
        },
    }
    match minus_minus_relative(input) {
        Ok(x) => { return Ok(x); },
        Err(e) => {
            if e > deepest {
                deepest = e;
            }
        },
    }
    Err(ClassificationError { position: deepest })
}

} // verus!
