//! What can go wrong while a document is read.

use vstd::prelude::*;

verus! {

/// Why a line was refused.
#[derive(Clone, Copy, Debug, PartialEq, Eq, Structural)]
pub enum ErrorKind {
    /// The line is no checklist entry: it does not start with `- [`, one of `x`, `X` and a
    /// space, and `]`.
    MalformedTaskLine,
    /// The text is no day header in good shape: no link target of the shape
    /// `Daily Notes/YYYY-MM-DD` stands where one is due.
    MalformedDayHeader,
    /// The link target has the right shape but the calendar has no such day.
    InvalidDate,
}

/// What a [`ParseError`] stands for.
pub ghost struct ParseErrorView {
    pub line_number: int,
    pub content: Seq<char>,
    pub kind: ErrorKind,
}

/// The line at which reading a document stopped.
#[derive(Clone, Debug, PartialEq, Eq)]
pub struct ParseError {
    /// The number of the line in the document, counted from 1.
    pub line_number: usize,
    /// The line, without the white space around it.
    pub content: String,
    /// Why the line was refused.
    pub kind: ErrorKind,
}

impl View for ParseError {
    type V = ParseErrorView;

    open spec fn view(&self) -> ParseErrorView {
        ParseErrorView {
            line_number: self.line_number as int,
            content: self.content@,
            kind: self.kind,
        }
    }
}

} // verus!
