//! The closed set of error kinds the parser can report.

use vstd::prelude::*;

verus! {

/// Everything that can go wrong while parsing a diagnostic log.
///
/// `FieldMissing`, `UnitMismatch` and `NumericParseFailure` are per-block
/// failures: the session driver catches them, records the offending block as
/// a failed-block artifact and resumes at the next block boundary.
/// `StreamExhausted` ends a run normally; `HeaderUnreadable` is the one fatal
/// condition.
#[derive(Clone, Copy, Debug, PartialEq, Eq, Structural)]
pub enum ParseError {
    /// Fewer lines remain than the current block requires.
    StreamExhausted,
    /// The self-test preamble is shorter than expected.
    HeaderUnreadable,
    /// A requested word index exceeds a line's token count.
    FieldMissing,
    /// An extracted token lacks the expected literal unit suffix.
    UnitMismatch,
    /// A token is present but not parseable as a number in the target range.
    NumericParseFailure,
}

} // verus!
