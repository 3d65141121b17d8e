//! Errors reported when a Uniclass code cannot be parsed or assembled.

use vstd::prelude::*;

verus! {

/// Why a textual code was rejected.
///
/// Every failure of parsing or construction is one of these variants;
/// nothing is silently recovered and nothing panics.
#[derive(Copy, Clone, Debug, PartialEq, Eq, Structural)]
pub enum ParseUniclassError {
    /// The first `_`-separated token is not one of the table mnemonics.
    InvalidTable,
    /// The mandatory group level is missing (fewer than two tokens).
    InsufficientSegments,
    /// A level token is not a non-empty string of decimal digits.
    ParseIntError,
    /// A level value lies outside the representable range 0..=127.
    OutOfRange,
}

/// The name of the variant, as the error reads in a report.
pub open spec fn spec_message(e: ParseUniclassError) -> Seq<char> {
    match e {
        ParseUniclassError::InvalidTable => "InvalidTable"@,
        ParseUniclassError::InsufficientSegments => "InsufficientSegments"@,
        ParseUniclassError::ParseIntError => "ParseIntError"@,
        ParseUniclassError::OutOfRange => "OutOfRange"@,
    }
}

impl ParseUniclassError {
    /// A short text naming the error, for reports and messages.
    pub fn message(&self) -> (r: &'static str)
        ensures
            r@ == spec_message(*self),
    {
        match self {
            ParseUniclassError::InvalidTable => "InvalidTable",
            ParseUniclassError::InsufficientSegments => "InsufficientSegments",
            ParseUniclassError::ParseIntError => "ParseIntError",
            ParseUniclassError::OutOfRange => "OutOfRange",
        }
    }
}

} // verus!
