//! Failure values returned by the two stages.
use vstd::prelude::*;

use crate::model::Relative;

verus! {

/// The input text matched no alternative of the grammar.  Carries the
/// deepest input position (a character index) that any alternative
/// reached before failing, as a diagnostic.
#[derive(Clone, Copy, Debug, PartialEq, Eq)]
pub struct ClassificationError {
    pub position: usize,
}

/// A typed resolution failure.
///
/// Where the calendar arithmetic would leave the supported range — a year
/// outside 1 through 9999, a clock value outside its range, a day that the
/// target month does not have, or a field combination the resolver does
/// not define — the resolver rejects the input rather than producing a
/// clamped or wrapped value.
#[derive(Clone, Copy, Debug, PartialEq, Eq)]
pub enum OrgModeDateTimeError {
    /// A numeric field falls outside the range the conversion into a
    /// concrete calendar value can represent.
    TryFromIntError,
    /// A past month-offset lands on a day the destination month does not
    /// have; carries the offending relative offset.
    UnrepresentablePastRelativeDate(Relative),
    /// A future month-offset lands on a day the destination month does
    /// not have; carries the offending relative offset.
    UnrepresentableFutureRelativeDate(Relative),
}

} // verus!
