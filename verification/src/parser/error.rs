//! Errors found while parsing.
use vstd::prelude::*;
use crate::errors::{diagnostic, format_err, position_of, token_position};
use crate::token::{Token, TokenView};

verus! {

/// An error found while parsing: the token it was found at, and what is
/// wrong.
#[derive(Debug)]
pub struct ParseError {
    pub token: Token,
    pub msg: String,
}

/// A parse error as a mathematical value.
pub struct ParseErrorView {
    pub token: TokenView,
    pub msg: Seq<char>,
}

impl View for ParseError {
    type V = ParseErrorView;

    open spec fn view(&self) -> ParseErrorView {
        ParseErrorView { token: self.token@, msg: self.msg@ }
    }
}

impl ParseError {
    /// An error at `token` with the message `msg`.
    pub fn new(token: Token, msg: String) -> (error: ParseError)
        ensures
            error.token == token,
            error.msg == msg,
    {
        ParseError { token, msg }
    }

    /// The diagnostic line for this error.
    pub fn to_string(&self) -> (text: String)
        ensures
            text@ == diagnostic(self.token.line as nat, token_position(self.token@), self.msg@),
    {
        let position = position_of(&self.token);
        format_err(self.token.line, position.as_str(), self.msg.as_str())
    }
}

} // verus!
