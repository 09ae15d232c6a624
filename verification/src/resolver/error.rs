//! Errors found while resolving.
use vstd::prelude::*;
use crate::errors::{diagnostic, format_err, position_of, token_position};
use crate::token::{Token, TokenView};

verus! {

/// An error found while resolving: the token it was found at, and what is
/// wrong.
#[derive(Debug)]
pub struct ResolveError {
    pub token: Token,
    pub msg: String,
}

/// A resolve error as a mathematical value.
pub struct ResolveErrorView {
    pub token: TokenView,
    pub msg: Seq<char>,
}

impl View for ResolveError {
    type V = ResolveErrorView;

    open spec fn view(&self) -> ResolveErrorView {
        ResolveErrorView { token: self.token@, msg: self.msg@ }
    }
}

impl ResolveError {
    /// An error at `token` with the message `msg`.
    pub fn new(token: Token, msg: String) -> (error: ResolveError)
        ensures
            error.token == token,
            error.msg == msg,
    {
        ResolveError { token, msg }
    }

    /// The diagnostic line for this error.
    pub fn to_string(&self) -> (text: String)
        ensures
            text@ == diagnostic(self.token.line as nat, token_position(self.token@), self.msg@),
    {
        let position = position_of(&self.token);
        format_err(self.token.line, position.as_str(), self.msg.as_str())
    }
}

} // verus!
