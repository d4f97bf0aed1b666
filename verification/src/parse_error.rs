//! The error taxonomy threaded through every stage of the pipeline. Each
//! error is terminal for the current request and carries a displayable
//! description.

use vstd::prelude::*;
use vstd::string::StringExecFns;

use crate::job_row::{
    AnyValueToNaiveDateTimeParseError, AnyValueToNumericParseError, StringToDispoModeError,
    StringToTemperatureRangeError,
};
use crate::text::int_str;

verus! {

/// All errors that can occur while parsing the two extracts.
#[derive(Debug)]
pub enum ParseFilesError {
    /// A generic tabular error: a requested column is absent, a column name
    /// clashes, or a sheet carries duplicate headers.
    TableError(String),
    /// The sheet has no rows at all.
    NoHeadersFound,
    MismatchedRowCount((i32, i32)),
    /// The workbook does not hold exactly the expected number of sheets;
    /// carries `(expected, actual)`.
    InvalidSheetCount((i32, i32)),
    AnyValueToNumericParse(AnyValueToNumericParseError),
    AnyValueToNaiveDateTimeParse(AnyValueToNaiveDateTimeParseError),
    StringToDispoMode(StringToDispoModeError),
    StringToTemperatureRange(StringToTemperatureRangeError),
}

impl ParseFilesError {
    /// The displayable description of this error.
    pub fn message(&self) -> (r: String)
        ensures
            self matches ParseFilesError::TableError(m) ==> r@ == "TableError: "@ + m@,
            self is NoHeadersFound ==> r@ == "NoHeadersFound"@,
            self matches ParseFilesError::MismatchedRowCount(c) ==> r@
                == "Mismatched row count. Found "@ + int_str(c.0 as int) + " and "@ + int_str(
                c.1 as int,
            ),
            self matches ParseFilesError::InvalidSheetCount(c) ==> r@ == "Expected "@ + int_str(
                c.0 as int,
            ) + " sheets, found "@ + int_str(c.1 as int),
            self matches ParseFilesError::AnyValueToNumericParse(e) ==> r@
                == "AnyValueToNumericParseError: "@ + e.message_view(),
            self matches ParseFilesError::AnyValueToNaiveDateTimeParse(e) ==> r@
                == "AnyValueToNaiveDateTimeParseError: "@ + e.message_view(),
            self matches ParseFilesError::StringToDispoMode(e) ==> r@
                == "StringToDispoModeError: "@ + e.message_view(),
            self matches ParseFilesError::StringToTemperatureRange(e) ==> r@
                == "StringToTemperatureRangeError: "@ + e.message_view(),
    {
        match self {
            ParseFilesError::TableError(m) => {
                let mut r = String::from_str("TableError: ");
                r.append(m.as_str());
                r
            },
            ParseFilesError::NoHeadersFound => String::from_str("NoHeadersFound"),
            ParseFilesError::MismatchedRowCount(c) => {
                let mut r = String::from_str("Mismatched row count. Found ");
                let first = crate::text::i64_to_string(c.0 as i64);
                r.append(first.as_str());
                r.append(" and ");
                let second = crate::text::i64_to_string(c.1 as i64);
                r.append(second.as_str());
                r
            },
            ParseFilesError::InvalidSheetCount(c) => {
                let mut r = String::from_str("Expected ");
                let expected = crate::text::i64_to_string(c.0 as i64);
                r.append(expected.as_str());
                r.append(" sheets, found ");
                let actual = crate::text::i64_to_string(c.1 as i64);
                r.append(actual.as_str());
                r
            },
            ParseFilesError::AnyValueToNumericParse(e) => {
                let mut r = String::from_str("AnyValueToNumericParseError: ");
                let inner = e.message();
                r.append(inner.as_str());
                r
            },
            ParseFilesError::AnyValueToNaiveDateTimeParse(e) => {
                let mut r = String::from_str("AnyValueToNaiveDateTimeParseError: ");
                let inner = e.message();
                r.append(inner.as_str());
                r
            },
            ParseFilesError::StringToDispoMode(e) => {
                let mut r = String::from_str("StringToDispoModeError: ");
                let inner = e.message();
                r.append(inner.as_str());
                r
            },
            ParseFilesError::StringToTemperatureRange(e) => {
                let mut r = String::from_str("StringToTemperatureRangeError: ");
                let inner = e.message();
                r.append(inner.as_str());
                r
            },
        }
    }
}

} // verus!
