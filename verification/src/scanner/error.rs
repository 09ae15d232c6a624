//! Errors found while scanning.
use vstd::prelude::*;
use crate::errors::{diagnostic, format_err};
use crate::text::{decimal, push_decimal};

verus! {

/// An error found while scanning: the line, what went wrong, and the column
/// where one is known.
#[derive(Debug, PartialEq, Eq)]
pub struct ScanError {
    pub line: usize,
    pub message: String,
    pub pos: Option<usize>,
}

/// A scan error as a mathematical value.
pub struct ScanErrorView {
    pub line: usize,
    pub message: Seq<char>,
    pub pos: Option<usize>,
}

impl View for ScanError {
    type V = ScanErrorView;

    open spec fn view(&self) -> ScanErrorView {
        ScanErrorView { line: self.line, message: self.message@, pos: self.pos }
    }
}

/// Where a scan error says it was found: a space and the column, or nothing.
pub open spec fn position_text(pos: Option<usize>) -> Seq<char> {
    match pos {
        Some(p) => " "@ + decimal(p as nat),
        None => Seq::empty(),
    }
}

impl ScanError {
    /// An error on `line` with the given message, at column `pos` if known.
    pub fn new(line: usize, message: String, pos: Option<usize>) -> (error: ScanError)
        ensures
            error.line == line,
            error.message == message,
            error.pos == pos,
    {
        ScanError { line, message, pos }
    }

    /// The diagnostic line for this error.
    pub fn to_string(&self) -> (text: String)
        ensures
            text@ == diagnostic(self.line as nat, position_text(self.pos), self.message@),
    {
        let mut position = String::new();
        match self.pos {
            Some(p) => {
                position.push(' ');
                push_decimal(&mut position, p);
                proof {
                    reveal_strlit(" ");
                    assert(Seq::<char>::empty().push(' ') + decimal(p as nat) =~= " "@ + decimal(
                        p as nat,
                    ));
                }
            },
            None => {},
        }
        format_err(self.line, position.as_str(), self.message.as_str())
    }
}

} // verus!
