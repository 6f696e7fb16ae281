//! Why a run stops early.
//!
//! Every failure is fatal to the run: nothing is retried and nothing is
//! recovered.  Lines already emitted before the failure remain emitted.

use vstd::prelude::*;

verus! {

/// The reason a run stopped before its input was exhausted.
#[derive(Clone, Copy, Debug, PartialEq, Eq, Structural)]
pub enum ScanError {
    /// The regular-expression pattern does not compile.
    BadPattern,
    /// The compressed input cannot be decoded.
    Decode,
    /// The tar archive is malformed.
    Archive,
    /// A line of the input is not valid text.
    Encoding,
    /// The target column lies beyond a line's fields.
    ColumnOutOfRange,
}

impl ScanError {
    /// A one-line diagnostic for the error.
    pub fn message(&self) -> (r: &'static str)
        ensures
            r@ == match self {
                ScanError::BadPattern => "invalid regular expression"@,
                ScanError::Decode => "cannot decode compressed input"@,
                ScanError::Archive => "malformed tar archive"@,
                ScanError::Encoding => "input line is not valid text"@,
                ScanError::ColumnOutOfRange => "column index out of range"@,
            },
    {
        match self {
            ScanError::BadPattern => "invalid regular expression",
            ScanError::Decode => "cannot decode compressed input",
            ScanError::Archive => "malformed tar archive",
            ScanError::Encoding => "input line is not valid text",
            ScanError::ColumnOutOfRange => "column index out of range",
        }
    }
}

} // verus!
