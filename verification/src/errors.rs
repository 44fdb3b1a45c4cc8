//! Error values for text that fails to parse into a domain value.

use vstd::prelude::*;

verus! {

/// Specification-level image of a `ParseError`, carrying the offending
/// text as a character sequence.
pub enum ParseErrorView {
    InvalidFrequency { text: Seq<char> },
    InvalidMode { text: Seq<char> },
    InvalidBand { text: Seq<char> },
    InvalidTimestamp { text: Seq<char> },
}

/// Malformed numeric, enumerated, or timestamp text; fatal to the record
/// being built. Carries the offending text.
#[derive(Debug)]
pub enum ParseError {
    InvalidFrequency { text: String },
    InvalidMode { text: String },
    InvalidBand { text: String },
    InvalidTimestamp { text: String },
}

impl View for ParseError {
    type V = ParseErrorView;

    open spec fn view(&self) -> ParseErrorView {
        match self {
            ParseError::InvalidFrequency { text } => ParseErrorView::InvalidFrequency {
                text: text@,
            },
            ParseError::InvalidMode { text } => ParseErrorView::InvalidMode { text: text@ },
            ParseError::InvalidBand { text } => ParseErrorView::InvalidBand { text: text@ },
            ParseError::InvalidTimestamp { text } => ParseErrorView::InvalidTimestamp {
                text: text@,
            },
        }
    }
}

} // verus!
