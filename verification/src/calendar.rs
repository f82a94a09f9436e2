//! A proleptic-Gregorian calendar model over plain integers.
//!
//! Dates are triples of year, month and day restricted to the years 1
//! through 9999; timestamps add a wall-clock time of day.  The module also
//! defines the day-number line (day 1 is January 1 of year 1), which gives
//! every supported date a unique integer, and proves that the two
//! representations convert back and forth exactly.  Weekday and ISO
//! week-date computations are defined on top of the day number.
use vstd::prelude::*;

verus! {

/// The last supported year: dates beyond December 31 of this year are
/// rejected by every operation of the library.
pub const MAX_YEAR: u32 = 9999;

pub open spec fn is_leap_year(y: int) -> bool {
    (y % 4 == 0 && y % 100 != 0) || y % 400 == 0
}

pub open spec fn spec_days_in_month(y: int, m: int) -> int {
    if m == 2 {
        if is_leap_year(y) {
            29
        } else {
            28
        }
    } else if m == 4 || m == 6 || m == 9 || m == 11 {
        30
    } else {
        31
    }
}

/// A calendar date lies in year 1 through 9999 and names an existing day.
pub open spec fn valid_date(y: int, m: int, d: int) -> bool {
    &&& 1 <= y <= MAX_YEAR
    &&& 1 <= m <= 12
    &&& 1 <= d <= spec_days_in_month(y, m)
}

/// A calendar date (year, month, day), valid when [`Date::wf`] holds.
#[derive(Clone, Copy, Debug, PartialEq, Eq)]
pub struct Date {
    pub year: u32,
    pub month: u32,
    pub day: u32,
}

/// A wall-clock time of day, valid when [`Time::wf`] holds.
#[derive(Clone, Copy, Debug, PartialEq, Eq)]
pub struct Time {
    pub hour: u32,
    pub minute: u32,
    pub second: u32,
}

/// A calendar date together with a wall-clock time of day.
#[derive(Clone, Copy, Debug, PartialEq, Eq)]
pub struct DateTime {
    pub date: Date,
    pub time: Time,
}

impl Date {
    pub open spec fn wf(self) -> bool {
        valid_date(self.year as int, self.month as int, self.day as int)
    }

    /// Builds the date if year, month and day name an existing day in the
    /// supported range, and returns `None` otherwise.
    pub fn from_ymd(year: u32, month: u32, day: u32) -> (r: Option<Date>)
        ensures
            valid_date(year as int, month as int, day as int) ==> r == Some(
                Date { year, month, day },
            ),
            !valid_date(year as int, month as int, day as int) ==> r is None,
    {
        if 1 <= year && year <= MAX_YEAR && 1 <= month && month <= 12 && 1 <= day && day
            <= days_in_month(year, month) {
            Some(Date { year, month, day })
        } else {
            None
        }
    }

    /// Attaches a time of day, if the clock values are in range.
    pub fn and_hms(self, hour: u32, minute: u32, second: u32) -> (r: Option<DateTime>)
        ensures
            hour <= 23 && minute <= 59 && second <= 59 ==> r == Some(
                DateTime { date: self, time: Time { hour, minute, second } },
            ),
            !(hour <= 23 && minute <= 59 && second <= 59) ==> r is None,
    {
        if hour <= 23 && minute <= 59 && second <= 59 {
            Some(DateTime { date: self, time: Time { hour, minute, second } })
        } else {
            None
        }
    }
}

impl Time {
    pub open spec fn wf(self) -> bool {
        self.hour <= 23 && self.minute <= 59 && self.second <= 59
    }

    /// Builds the time of day if the clock values are in range.
    pub fn from_hms(hour: u32, minute: u32, second: u32) -> (r: Option<Time>)
        ensures
            hour <= 23 && minute <= 59 && second <= 59 ==> r == Some(
                Time { hour, minute, second },
            ),
            !(hour <= 23 && minute <= 59 && second <= 59) ==> r is None,
    {
        if hour <= 23 && minute <= 59 && second <= 59 {
            Some(Time { hour, minute, second })
        } else {
            None
        }
    }
}

impl DateTime {
    pub open spec fn wf(self) -> bool {
        self.date.wf() && self.time.wf()
    }
}

/// Number of days in the given month.
pub fn days_in_month(year: u32, month: u32) -> (r: u32)
    requires
        1 <= month <= 12,
    ensures
        r == spec_days_in_month(year as int, month as int),
{
    if month == 2 {
        if (year % 4 == 0 && year % 100 != 0) || year % 400 == 0 {
            29
        } else {
            28
        }
    } else if month == 4 || month == 6 || month == 9 || month == 11 {
        30
    } else {
        31
    }
}

pub open spec fn spec_days_in_year(y: int) -> int {
    if is_leap_year(y) {
        366
    } else {
        365
    }
}

/// Days strictly before January 1 of year `y`, counted from day 1
/// (January 1 of year 1).
pub open spec fn days_before_year(y: int) -> int
    decreases y,
{
    if y <= 1 {
        0
    } else {
        days_before_year(y - 1) + spec_days_in_year(y - 1)
    }
}

/// Days of year `y` strictly before the first day of month `m`.
pub open spec fn days_before_month(y: int, m: int) -> int
    decreases m,
{
    if m <= 1 {
        0
    } else {
        days_before_month(y, m - 1) + spec_days_in_month(y, m - 1)
    }
}

/// The day number of a date: January 1 of year 1 is day 1, and each
/// following day adds one.
pub open spec fn date_to_dn(y: int, m: int, d: int) -> int {
    days_before_year(y) + days_before_month(y, m) + d
}

/// The largest supported day number, that of December 31, 9999.
pub open spec fn max_dn() -> int {
    date_to_dn(MAX_YEAR as int, 12, 31)
}

/// Month and day-of-month reached by walking `doy` days into year `y`,
/// starting the walk at month `m`.
pub open spec fn md_of_doy(y: int, m: int, doy: int) -> (int, int)
    decreases 12 - m,
{
    if m >= 12 || doy <= spec_days_in_month(y, m) {
        (m, doy)
    } else {
        md_of_doy(y, m + 1, doy - spec_days_in_month(y, m))
    }
}

/// The date on day number `dn`, if it falls before the end of year 9999,
/// scanning years from `y` upward.
pub open spec fn dn_to_date_from(y: int, dn: int) -> Option<(int, int, int)>
    decreases MAX_YEAR + 1 - y,
{
    if y > MAX_YEAR {
        None
    } else if dn <= spec_days_in_year(y) {
        Some((y, md_of_doy(y, 1, dn).0, md_of_doy(y, 1, dn).1))
    } else {
        dn_to_date_from(y + 1, dn - spec_days_in_year(y))
    }
}

/// The date on day number `dn`, or `None` outside days 1 through
/// [`max_dn`].
pub open spec fn dn_to_date(dn: int) -> Option<(int, int, int)> {
    if dn < 1 {
        None
    } else {
        dn_to_date_from(1, dn)
    }
}

proof fn lemma_days_before_month_full(y: int)
    ensures
        days_before_month(y, 13) == spec_days_in_year(y),
{
    reveal_with_fuel(days_before_month, 14);
}

proof fn lemma_days_before_month_mono(y: int, a: int, b: int)
    requires
        a <= b,
    ensures
        days_before_month(y, a) <= days_before_month(y, b),
    decreases b - a,
{
    if a < b {
        lemma_days_before_month_mono(y, a, b - 1);
    }
}

/// Within a valid month, day-of-year offsets stay within the year.
proof fn lemma_dbm_plus_day(y: int, m: int, d: int)
    requires
        1 <= m <= 12,
        1 <= d <= spec_days_in_month(y, m),
    ensures
        1 <= days_before_month(y, m) + d <= spec_days_in_year(y),
        days_before_month(y, m) >= 0,
{
    lemma_days_before_month_mono(y, 1, m);
    lemma_days_before_month_mono(y, m + 1, 13);
    lemma_days_before_month_full(y);
    assert(days_before_month(y, m + 1) == days_before_month(y, m) + spec_days_in_month(y, m));
}

proof fn lemma_days_before_year_mono(a: int, b: int)
    requires
        a <= b,
    ensures
        days_before_year(a) <= days_before_year(b),
    decreases b - a,
{
    if a < b {
        lemma_days_before_year_mono(a, b - 1);
    }
}

proof fn lemma_days_before_year_bound(y: int)
    requires
        y >= 1,
    ensures
        0 <= days_before_year(y) <= 366 * (y - 1),
    decreases y,
{
    if y > 1 {
        lemma_days_before_year_bound(y - 1);
    }
}

/// The day-number line ends well below `u32::MAX`.
pub proof fn lemma_max_dn_bound()
    ensures
        max_dn() < 3660000,
{
    lemma_days_before_year_bound(MAX_YEAR as int);
    lemma_dbm_plus_day(MAX_YEAR as int, 12, 31);
}

/// Every valid date has a day number between 1 and [`max_dn`].
pub proof fn lemma_date_to_dn_in_range(y: int, m: int, d: int)
    requires
        valid_date(y, m, d),
    ensures
        1 <= date_to_dn(y, m, d) <= max_dn(),
{
    lemma_dbm_plus_day(y, m, d);
    lemma_days_before_year_bound(y);
    lemma_days_before_year_mono(y + 1, MAX_YEAR as int + 1);
    lemma_days_before_month_full(y);
    lemma_dbm_plus_day(MAX_YEAR as int, 12, 31);
    lemma_days_before_month_full(MAX_YEAR as int);
    assert(days_before_year(y + 1) == days_before_year(y) + spec_days_in_year(y));
    assert(days_before_year(MAX_YEAR as int + 1) == days_before_year(MAX_YEAR as int)
        + spec_days_in_year(MAX_YEAR as int));
}

proof fn lemma_md_of_doy_valid(y: int, m: int, doy: int)
    requires
        1 <= m <= 12,
        1 <= doy,
        days_before_month(y, m) + doy <= spec_days_in_year(y),
    ensures
        ({
            let (rm, rd) = md_of_doy(y, m, doy);
            &&& m <= rm <= 12
            &&& 1 <= rd <= spec_days_in_month(y, rm)
            &&& days_before_month(y, rm) + rd == days_before_month(y, m) + doy
        }),
    decreases 12 - m,
{
    if m >= 12 || doy <= spec_days_in_month(y, m) {
        if m >= 12 {
            lemma_days_before_month_full(y);
            assert(days_before_month(y, 13) == days_before_month(y, 12) + spec_days_in_month(
                y,
                12,
            ));
        }
    } else {
        lemma_md_of_doy_valid(y, m + 1, doy - spec_days_in_month(y, m));
    }
}

/// Day numbers 1 through [`max_dn`] name exactly one valid date, and that
/// date's own day number is the one we started from.
pub proof fn lemma_dn_to_date_some(dn: int)
    requires
        1 <= dn <= max_dn(),
    ensures
        ({
            let r = dn_to_date(dn);
            &&& r matches Some(t)
            &&& valid_date(t.0, t.1, t.2)
            &&& date_to_dn(t.0, t.1, t.2) == dn
        }),
{
    lemma_days_before_month_full(MAX_YEAR as int);
    assert(max_dn() == days_before_year(MAX_YEAR as int) + spec_days_in_year(MAX_YEAR as int));
    lemma_dn_to_date_from_some(1, dn);
}

proof fn lemma_dn_to_date_from_some(y: int, dn: int)
    requires
        1 <= y <= MAX_YEAR,
        1 <= dn,
        days_before_year(y) + dn <= days_before_year(MAX_YEAR as int) + spec_days_in_year(
            MAX_YEAR as int,
        ),
    ensures
        ({
            let r = dn_to_date_from(y, dn);
            &&& r matches Some(t)
            &&& valid_date(t.0, t.1, t.2)
            &&& date_to_dn(t.0, t.1, t.2) == days_before_year(y) + dn
        }),
    decreases MAX_YEAR as int + 1 - y,
{
    if dn <= spec_days_in_year(y) {
        lemma_md_of_doy_valid(y, 1, dn);
    } else {
        if y == MAX_YEAR {
            assert(false);
        } else {
            assert(days_before_year(y + 1) == days_before_year(y) + spec_days_in_year(y));
            lemma_dn_to_date_from_some(y + 1, dn - spec_days_in_year(y));
        }
    }
}

proof fn lemma_md_of_doy_roundtrip(y: int, m0: int, m: int, d: int)
    requires
        1 <= m0 <= m <= 12,
        1 <= d <= spec_days_in_month(y, m),
    ensures
        md_of_doy(y, m0, days_before_month(y, m) + d - days_before_month(y, m0)) == (m, d),
    decreases m - m0,
{
    lemma_days_before_month_mono(y, m0, m);
    if m0 == m {
    } else {
        lemma_days_before_month_mono(y, m0 + 1, m);
        lemma_md_of_doy_roundtrip(y, m0 + 1, m, d);
    }
}

proof fn lemma_dn_to_date_from_roundtrip(y0: int, y: int, m: int, d: int)
    requires
        1 <= y0 <= y,
        valid_date(y, m, d),
    ensures
        dn_to_date_from(y0, date_to_dn(y, m, d) - days_before_year(y0)) == Some((y, m, d)),
    decreases y - y0,
{
    lemma_dbm_plus_day(y, m, d);
    lemma_days_before_year_mono(y0, y);
    if y0 == y {
        lemma_md_of_doy_roundtrip(y, 1, m, d);
    } else {
        lemma_days_before_year_mono(y0 + 1, y);
        assert(days_before_year(y0 + 1) == days_before_year(y0) + spec_days_in_year(y0));
        lemma_dn_to_date_from_roundtrip(y0 + 1, y, m, d);
    }
}

proof fn lemma_dn_to_date_from_valid(y: int, dn: int)
    requires
        1 <= y,
        1 <= dn,
    ensures
        dn_to_date_from(y, dn) matches Some(t) ==> valid_date(t.0, t.1, t.2),
    decreases MAX_YEAR + 1 - y,
{
    if y > MAX_YEAR {
    } else if dn <= spec_days_in_year(y) {
        lemma_md_of_doy_valid(y, 1, dn);
    } else {
        lemma_dn_to_date_from_valid(y + 1, dn - spec_days_in_year(y));
    }
}

/// Whatever day number converts at all converts to a valid date.
pub proof fn lemma_dn_to_date_valid(dn: int)
    ensures
        dn_to_date(dn) matches Some(t) ==> valid_date(t.0, t.1, t.2),
{
    if dn >= 1 {
        lemma_dn_to_date_from_valid(1, dn);
    }
}

/// A day shift that stays in range lands on a valid date.
pub proof fn lemma_date_add_days_wf(date: Date, n: int)
    ensures
        spec_date_add_days(date, n) matches Some(d2) ==> d2.wf(),
{
    let t = date_to_dn(date.year as int, date.month as int, date.day as int) + n;
    if 1 <= t <= max_dn() {
        lemma_dn_to_date_some(t);
    }
}

/// An hour shift that stays in range lands on a valid timestamp, as long
/// as the starting minute and second were themselves in range.
pub proof fn lemma_shift_hours_wf(ts: DateTime, h: int)
    requires
        ts.time.minute <= 59,
        ts.time.second <= 59,
    ensures
        spec_shift_hours(ts, h) matches Some(t2) ==> t2.wf(),
{
    let total = (date_to_dn(ts.date.year as int, ts.date.month as int, ts.date.day as int) - 1)
        * 24 + ts.time.hour + h;
    if 0 <= total && total <= (max_dn() - 1) * 24 + 23 {
        vstd::arithmetic::div_mod::lemma_fundamental_div_mod(total, 24);
        lemma_dn_to_date_some(total / 24 + 1);
    }
}

/// An ISO week date that resolves at all resolves to a valid date.
pub proof fn lemma_iso_ywd_date_wf(y: int, w: int, wd: int)
    ensures
        spec_iso_ywd_date(y, w, wd) matches Some(t) ==> valid_date(t.0, t.1, t.2),
{
    if 1 <= y <= MAX_YEAR && 1 <= wd <= 7 && 1 <= w <= iso_weeks_in_year(y) {
        lemma_dn_to_date_valid(iso_ywd_dn(y, w, wd));
    }
}

/// Converting a valid date to its day number and back returns the date.
pub proof fn lemma_date_to_dn_roundtrip(y: int, m: int, d: int)
    requires
        valid_date(y, m, d),
    ensures
        dn_to_date(date_to_dn(y, m, d)) == Some((y, m, d)),
{
    lemma_date_to_dn_in_range(y, m, d);
    lemma_dn_to_date_from_roundtrip(1, y, m, d);
}

/// Weekday of a day number, 1 for Monday through 7 for Sunday.  Day 1
/// (January 1 of year 1) is a Monday.
pub open spec fn weekday_of_dn(dn: int) -> int {
    (dn - 1) % 7 + 1
}

pub open spec fn weekday_of_date(y: int, m: int, d: int) -> int {
    weekday_of_dn(date_to_dn(y, m, d))
}

/// The date reached by `dn_to_date`, as a `Date` value (meaningful only
/// where `dn_to_date` returns `Some`).
pub open spec fn date_of_dn(dn: int) -> Date {
    match dn_to_date(dn) {
        Some(t) => Date { year: t.0 as u32, month: t.1 as u32, day: t.2 as u32 },
        None => Date { year: 0, month: 0, day: 0 },
    }
}

/// The date `n` days after `date`, or `None` past the end of year 9999.
pub open spec fn spec_date_add_days(date: Date, n: int) -> Option<Date> {
    let t = date_to_dn(date.year as int, date.month as int, date.day as int) + n;
    if 1 <= t <= max_dn() {
        Some(date_of_dn(t))
    } else {
        None
    }
}

/// The date `n` days before `date`, or `None` before year 1.
pub open spec fn spec_date_sub_days(date: Date, n: int) -> Option<Date> {
    spec_date_add_days(date, -n)
}

/// Number of days in the given year.
pub fn days_in_year(year: u32) -> (r: u32)
    ensures
        r == spec_days_in_year(year as int),
{
    if (year % 4 == 0 && year % 100 != 0) || year % 400 == 0 {
        366
    } else {
        365
    }
}

/// Days strictly before January 1 of year `y`.
fn days_before_year_exec(y: u32) -> (r: u32)
    requires
        1 <= y <= MAX_YEAR + 1,
    ensures
        r == days_before_year(y as int),
{
    let mut i: u32 = 1;
    let mut acc: u32 = 0;
    while i < y
        invariant
            1 <= i <= y <= MAX_YEAR + 1,
            acc == days_before_year(i as int),
        decreases y - i,
    {
        proof {
            lemma_days_before_year_bound(i as int + 1);
        }
        acc = acc + days_in_year(i);
        i = i + 1;
    }
    acc
}

/// The day number of a valid date.
pub fn date_to_dn_exec(date: Date) -> (r: u32)
    requires
        date.wf(),
    ensures
        r == date_to_dn(date.year as int, date.month as int, date.day as int),
        1 <= r <= max_dn(),
{
    proof {
        lemma_date_to_dn_in_range(date.year as int, date.month as int, date.day as int);
        lemma_days_before_year_bound(date.year as int);
        lemma_dbm_plus_day(date.year as int, date.month as int, date.day as int);
    }
    let dby = days_before_year_exec(date.year);
    let mut m: u32 = 1;
    let mut dbm: u32 = 0;
    while m < date.month
        invariant
            1 <= m <= date.month,
            date.wf(),
            dbm == days_before_month(date.year as int, m as int),
        decreases date.month - m,
    {
        proof {
            lemma_days_before_month_mono(date.year as int, m as int + 1, date.month as int);
            lemma_dbm_plus_day(date.year as int, date.month as int, date.day as int);
        }
        dbm = dbm + days_in_month(date.year, m);
        m = m + 1;
    }
    dby + dbm + date.day
}

/// The largest supported day number.
pub fn max_dn_exec() -> (r: u32)
    ensures
        r == max_dn(),
{
    proof {
        lemma_days_before_month_full(MAX_YEAR as int);
        assert(days_before_month(MAX_YEAR as int, 13) == days_before_month(MAX_YEAR as int, 12)
            + spec_days_in_month(MAX_YEAR as int, 12));
    }
    days_before_year_exec(MAX_YEAR + 1)
}

/// The date on the given day number, or `None` outside the supported
/// range.
pub fn dn_to_date_exec(dn: u32) -> (r: Option<Date>)
    ensures
        match r {
            Some(date) => {
                &&& dn_to_date(dn as int) == Some(
                    (date.year as int, date.month as int, date.day as int),
                )
                &&& date.wf()
                &&& date_to_dn(date.year as int, date.month as int, date.day as int) == dn
            },
            None => dn_to_date(dn as int) is None,
        },
{
    if dn == 0 {
        return None;
    }
    let mut y: u32 = 1;
    let mut rem: u32 = dn;
    loop
        invariant
            1 <= y <= MAX_YEAR + 1,
            1 <= rem,
            dn_to_date_from(y as int, rem as int) == dn_to_date(dn as int),
            days_before_year(y as int) + rem == dn,
        ensures
            1 <= y <= MAX_YEAR,
            1 <= rem <= spec_days_in_year(y as int),
            dn_to_date_from(y as int, rem as int) == dn_to_date(dn as int),
            days_before_year(y as int) + rem == dn,
        decreases MAX_YEAR + 1 - y,
    {
        if y > MAX_YEAR {
            return None;
        }
        let diy = days_in_year(y);
        if rem <= diy {
            break ;
        }
        rem = rem - diy;
        y = y + 1;
    }
    // `y` is now the year holding day `dn`, and `rem` its day of year.
    let ghost doy = rem as int;
    proof {
        lemma_md_of_doy_valid(y as int, 1, doy);
    }
    let ghost target = md_of_doy(y as int, 1, doy);
    let mut m: u32 = 1;
    loop
        invariant
            1 <= m <= 12,
            1 <= rem,
            1 <= y <= MAX_YEAR,
            days_before_month(y as int, m as int) + rem == doy,
            1 <= doy <= spec_days_in_year(y as int),
            md_of_doy(y as int, m as int, rem as int) == target,
            md_of_doy(y as int, 1, doy) == target,
            dn_to_date_from(y as int, doy) == dn_to_date(dn as int),
            days_before_year(y as int) + doy == dn,
        ensures
            1 <= m <= 12,
            1 <= rem <= spec_days_in_month(y as int, m as int),
            days_before_month(y as int, m as int) + rem == doy,
            md_of_doy(y as int, m as int, rem as int) == target,
        decreases 12 - m,
    {
        let dim = days_in_month(y, m);
        if rem <= dim {
            break ;
        }
        proof {
            if m == 12 {
                lemma_days_before_month_full(y as int);
                lemma_days_before_month_mono(y as int, 12, 13);
                assert(false);
            }
        }
        rem = rem - dim;
        m = m + 1;
    }
    proof {
        assert(md_of_doy(y as int, m as int, rem as int) == (m as int, rem as int));
        assert(dn_to_date_from(y as int, doy) == Some((y as int, target.0, target.1)));
        lemma_date_to_dn_in_range(y as int, m as int, rem as int);
    }
    Some(Date { year: y, month: m, day: rem })
}

/// Weekday of a valid date, 1 for Monday through 7 for Sunday.
pub fn weekday_of_date_exec(date: Date) -> (r: u32)
    requires
        date.wf(),
    ensures
        r == weekday_of_date(date.year as int, date.month as int, date.day as int),
        1 <= r <= 7,
{
    let dn = date_to_dn_exec(date);
    (dn - 1) % 7 + 1
}

/// The date `n` days later, or `None` past the end of year 9999.
pub fn date_add_days(date: Date, n: u64) -> (r: Option<Date>)
    requires
        date.wf(),
    ensures
        r == spec_date_add_days(date, n as int),
        r matches Some(d2) ==> d2.wf(),
{
    let dn = date_to_dn_exec(date);
    let max = max_dn_exec();
    if n > max as u64 || dn as u64 + n > max as u64 {
        None
    } else {
        let t: u64 = dn as u64 + n;
        proof {
            lemma_dn_to_date_some(t as int);
        }
        dn_to_date_exec(t as u32)
    }
}

/// The date `n` days earlier, or `None` before year 1.
pub fn date_sub_days(date: Date, n: u64) -> (r: Option<Date>)
    requires
        date.wf(),
    ensures
        r == spec_date_sub_days(date, n as int),
        r matches Some(d2) ==> d2.wf(),
{
    let dn = date_to_dn_exec(date);
    if n >= dn as u64 {
        None
    } else {
        proof {
            lemma_dn_to_date_some(dn as int - n as int);
        }
        dn_to_date_exec(dn - n as u32)
    }
}

/// The timestamp `h` hours away from `ts` (`h` may be negative), keeping
/// minute and second, or `None` when the result leaves the supported
/// range of dates.
pub open spec fn spec_shift_hours(ts: DateTime, h: int) -> Option<DateTime> {
    let total = (date_to_dn(ts.date.year as int, ts.date.month as int, ts.date.day as int) - 1)
        * 24 + ts.time.hour + h;
    if 0 <= total && total <= (max_dn() - 1) * 24 + 23 {
        Some(
            DateTime {
                date: date_of_dn(total / 24 + 1),
                time: Time {
                    hour: (total % 24) as u32,
                    minute: ts.time.minute,
                    second: ts.time.second,
                },
            },
        )
    } else {
        None
    }
}

/// `ts` shifted by `hours` hours, forward (`future`) or backward.
pub fn shift_hours(ts: DateTime, hours: u32, future: bool) -> (r: Option<DateTime>)
    requires
        ts.wf(),
    ensures
        r == spec_shift_hours(ts, if future { hours as int } else { -(hours as int) }),
        r matches Some(t2) ==> t2.wf(),
{
    let dn = date_to_dn_exec(ts.date);
    let base: i64 = (dn as i64 - 1) * 24 + ts.time.hour as i64;
    let total: i64 = if future {
        base + hours as i64
    } else {
        base - hours as i64
    };
    let max = max_dn_exec();
    let limit: i64 = (max as i64 - 1) * 24 + 23;
    if total < 0 || total > limit {
        return None;
    }
    let t: u64 = total as u64;
    let dn2: u64 = t / 24 + 1;
    let h2: u32 = (t % 24) as u32;
    proof {
        assert(t == 24 * (t as int / 24) + t as int % 24) by {
            vstd::arithmetic::div_mod::lemma_fundamental_div_mod(t as int, 24);
        }
        assert(dn2 <= max_dn());
        lemma_dn_to_date_some(dn2 as int);
    }
    match dn_to_date_exec(dn2 as u32) {
        Some(d2) => Some(
            DateTime {
                date: d2,
                time: Time { hour: h2, minute: ts.time.minute, second: ts.time.second },
            },
        ),
        None => None,
    }
}

/// Monday of ISO week 1 of year `y`: the Monday of the week holding
/// January 4.
pub open spec fn iso_week1_monday(y: int) -> int {
    let jan4 = date_to_dn(y, 1, 4);
    jan4 - (weekday_of_dn(jan4) - 1)
}

/// Day number of the ISO week date (year, week, weekday).
pub open spec fn iso_ywd_dn(y: int, w: int, wd: int) -> int {
    iso_week1_monday(y) + (w - 1) * 7 + (wd - 1)
}

/// Number of ISO weeks in year `y`: 53 when January 1 falls on a Thursday,
/// or on a Wednesday of a leap year, else 52.
pub open spec fn iso_weeks_in_year(y: int) -> int {
    let wd_jan1 = weekday_of_date(y, 1, 1);
    if wd_jan1 == 4 || (is_leap_year(y) && wd_jan1 == 3) {
        53
    } else {
        52
    }
}

/// The calendar date of an ISO week date, or `None` when year, week or
/// weekday is out of range or the date falls outside the supported years.
pub open spec fn spec_iso_ywd_date(y: int, w: int, wd: int) -> Option<(int, int, int)> {
    if 1 <= y <= MAX_YEAR && 1 <= wd <= 7 && 1 <= w <= iso_weeks_in_year(y) {
        dn_to_date(iso_ywd_dn(y, w, wd))
    } else {
        None
    }
}

/// The calendar date of the ISO week date (year, week, weekday).
pub fn iso_ywd_to_date(y: u32, w: u32, wd: u32) -> (r: Option<Date>)
    ensures
        match r {
            Some(date) => spec_iso_ywd_date(y as int, w as int, wd as int) == Some(
                (date.year as int, date.month as int, date.day as int),
            ) && date.wf(),
            None => spec_iso_ywd_date(y as int, w as int, wd as int) is None,
        },
{
    if !(1 <= y && y <= MAX_YEAR && 1 <= wd && wd <= 7) {
        return None;
    }
    let jan1 = date_to_dn_exec(Date { year: y, month: 1, day: 1 });
    let wd_jan1 = weekday_of_dn_exec(jan1);
    let leap = days_in_year(y) == 366;
    let weeks: u32 = if wd_jan1 == 4 || (leap && wd_jan1 == 3) {
        53
    } else {
        52
    };
    assert(weeks == iso_weeks_in_year(y as int));
    if !(1 <= w && w <= weeks) {
        return None;
    }
    proof {
        lemma_max_dn_bound();
        lemma_date_to_dn_in_range(y as int, 1, 4);
    }
    let jan4 = jan1 + 3;
    assert(jan4 == date_to_dn(y as int, 1, 4));
    let wd4 = weekday_of_dn_exec(jan4);
    proof {
        if y > 1 {
            lemma_days_before_year_mono(2, y as int);
            reveal_with_fuel(days_before_year, 3);
            assert(days_before_year(2) == 365);
        }
    }
    let w1m = jan4 + 1 - wd4;
    let dn: u32 = w1m + (w - 1) * 7 + (wd - 1);
    dn_to_date_exec(dn)
}

/// Weekday of a day number, 1 for Monday through 7 for Sunday.
pub fn weekday_of_dn_exec(dn: u32) -> (r: u32)
    requires
        dn >= 1,
    ensures
        r == weekday_of_dn(dn as int),
        1 <= r <= 7,
{
    (dn - 1) % 7 + 1
}

/// Strict lexicographic order on timestamps: earlier moments come first.
pub open spec fn spec_dt_lt(a: DateTime, b: DateTime) -> bool {
    if a.date.year != b.date.year {
        a.date.year < b.date.year
    } else if a.date.month != b.date.month {
        a.date.month < b.date.month
    } else if a.date.day != b.date.day {
        a.date.day < b.date.day
    } else if a.time.hour != b.time.hour {
        a.time.hour < b.time.hour
    } else if a.time.minute != b.time.minute {
        a.time.minute < b.time.minute
    } else {
        a.time.second < b.time.second
    }
}

/// Whether `a` names a strictly earlier moment than `b`.
pub fn dt_lt(a: DateTime, b: DateTime) -> (r: bool)
    ensures
        r == spec_dt_lt(a, b),
{
    if a.date.year != b.date.year {
        a.date.year < b.date.year
    } else if a.date.month != b.date.month {
        a.date.month < b.date.month
    } else if a.date.day != b.date.day {
        a.date.day < b.date.day
    } else if a.time.hour != b.time.hour {
        a.time.hour < b.time.hour
    } else if a.time.minute != b.time.minute {
        a.time.minute < b.time.minute
    } else {
        a.time.second < b.time.second
    }
}

} // verus!
