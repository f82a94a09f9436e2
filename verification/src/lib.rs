//! A recursive-descent parser and resolver for the loose, human-friendly
//! date/time fragments accepted by interactive calendar prompts (for example
//! `3-2-5`, `sep 12 9`, `+2tue`, `11am-1:15pm`).
//!
//! [`parse`] classifies a text fragment into a [`DateTimeSpec`], a partial
//! specification of a date, time or range.  [`render`] resolves such a
//! specification against two baseline timestamps — an existing value being
//! edited and the current moment — into a concrete [`RenderedSpec`].
//!
//! Both stages are pure functions of their arguments, and both carry full
//! functional contracts: the grammar and the calendar arithmetic are given as
//! specification functions, and the executable code is proved to return
//! exactly what those functions describe.
pub mod calendar;
pub mod error;
pub mod grammar;
pub mod laws;
pub mod model;
pub mod parser;
pub mod renderer;

pub use calendar::{Date, DateTime, Time};
pub use error::{ClassificationError, OrgModeDateTimeError};
pub use model::{
    Absolute, AbsoluteTime, DateTimeSpec, Meridiem, Month, Relative, RelativeTime, Weekday,
};
pub use parser::{
    april, august, december, february, friday, hour_meridiem, hour_minute, hour_minute_meridiem,
    january, july, june, march, may, monday, month, november, october, parse, parse_dashed_date,
    parse_day_month_hour_minute, parse_day_of_month,
    parse_day_optional_month_optional_hour_minute, parse_iso_date, parse_slashed_date, saturday,
    september, sunday, thursday, tuesday, wednesday, weekday,
};
pub use renderer::{apply_meridiem, render, RenderedSpec};
