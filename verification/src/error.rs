//! Error type shared by every parsing entry point.
//!
//! A parse aborts on the first failing field; the variant says which field
//! family failed. Serialization never produces one of these.

use vstd::prelude::*;
use vstd::string::StringExecFns;

use crate::decimal::{append_decimal_u32, dec_chars};

verus! {

/// Failure of a whole-document or single-block parse.
#[derive(Debug, PartialEq, Eq)]
pub enum ParseError {
    /// An underlying read or write failed; carries the reported text.
    IoError(String),
    /// The buffer ended before a field could be read in full.
    Incomplete,
    /// The header names a code page outside the supported set.
    CodePageNumber(u16),
    /// The display standard byte is not one of the known codes.
    DisplayStandardCode,
    /// The time code status byte is not one of the known codes.
    TimeCodeStatus,
    /// The disk format string matches no supported format; carries it.
    DiskFormatCode(String),
    /// The character code table digits match no supported table.
    CharacterCodeTable,
    /// The cumulative status byte of a record is outside its range.
    CumulativeStatus,
    /// Any other malformed field.
    Unknown,
}

/// Mathematical image of a [`ParseError`]: heap payloads become sequences.
#[verifier::ext_equal]
pub ghost enum ParseErrorView {
    IoError(Seq<char>),
    Incomplete,
    CodePageNumber(u16),
    DisplayStandardCode,
    TimeCodeStatus,
    DiskFormatCode(Seq<char>),
    CharacterCodeTable,
    CumulativeStatus,
    Unknown,
}

impl View for ParseError {
    type V = ParseErrorView;

    open spec fn view(&self) -> ParseErrorView {
        match self {
            ParseError::IoError(s) => ParseErrorView::IoError(s@),
            ParseError::Incomplete => ParseErrorView::Incomplete,
            ParseError::CodePageNumber(n) => ParseErrorView::CodePageNumber(*n),
            ParseError::DisplayStandardCode => ParseErrorView::DisplayStandardCode,
            ParseError::TimeCodeStatus => ParseErrorView::TimeCodeStatus,
            ParseError::DiskFormatCode(s) => ParseErrorView::DiskFormatCode(s@),
            ParseError::CharacterCodeTable => ParseErrorView::CharacterCodeTable,
            ParseError::CumulativeStatus => ParseErrorView::CumulativeStatus,
            ParseError::Unknown => ParseErrorView::Unknown,
        }
    }
}

/// The description of each failure, for reporting.
pub open spec fn spec_message(e: ParseErrorView) -> Seq<char> {
    match e {
        ParseErrorView::IoError(s) => "IoError: "@ + s,
        ParseErrorView::Incomplete => "Error parsing, file may be incomplete or corrupted"@,
        ParseErrorView::CodePageNumber(n) => "Unknown Code Page Number: "@ + dec_chars(n as int),
        ParseErrorView::DisplayStandardCode => "Error parsing Display Standard Code"@,
        ParseErrorView::TimeCodeStatus => "Error parsing Time Code Status"@,
        ParseErrorView::DiskFormatCode(s) => "Error parsing Disk Format Code: "@ + s,
        ParseErrorView::CharacterCodeTable => "Error parsing Character Code Table"@,
        ParseErrorView::CumulativeStatus => "Error parsing Cumulative Status"@,
        ParseErrorView::Unknown => "Unknown error"@,
    }
}

impl ParseError {
    /// A human-readable description of the failure.
    pub fn message(&self) -> (r: String)
        ensures
            r@ == spec_message(self@),
    {
        match self {
            ParseError::IoError(s) => {
                let mut m = String::from_str("IoError: ");
                m.append(s.as_str());
                m
            },
            ParseError::Incomplete => String::from_str(
                "Error parsing, file may be incomplete or corrupted",
            ),
            ParseError::CodePageNumber(n) => {
                let mut m = String::from_str("Unknown Code Page Number: ");
                append_decimal_u32(&mut m, *n as u32);
                m
            },
            ParseError::DisplayStandardCode => String::from_str(
                "Error parsing Display Standard Code",
            ),
            ParseError::TimeCodeStatus => String::from_str("Error parsing Time Code Status"),
            ParseError::DiskFormatCode(s) => {
                let mut m = String::from_str("Error parsing Disk Format Code: ");
                m.append(s.as_str());
                m
            },
            ParseError::CharacterCodeTable => String::from_str(
                "Error parsing Character Code Table",
            ),
            ParseError::CumulativeStatus => String::from_str("Error parsing Cumulative Status"),
            ParseError::Unknown => String::from_str("Unknown error"),
        }
    }
}

} // verus!
