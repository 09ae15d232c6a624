//! Errors raised while a program runs.
use vstd::prelude::*;
use vstd::string::StringExecFns;
use crate::errors::{diagnostic, format_err};
use crate::token::{Token, TokenView};

verus! {

/// An error raised while a program runs: the token it was raised at, and
/// what went wrong.
#[derive(Debug)]
pub struct RuntimeError {
    pub token: Token,
    pub message: String,
}

/// A runtime error as a mathematical value.
pub struct RuntimeErrorView {
    pub token: TokenView,
    pub message: Seq<char>,
}

impl View for RuntimeError {
    type V = RuntimeErrorView;

    open spec fn view(&self) -> RuntimeErrorView {
        RuntimeErrorView { token: self.token@, message: self.message@ }
    }
}

/// The message for a name that nothing defines: `<what> '<name>'.`
pub open spec fn quoted(what: Seq<char>, name: Seq<char>) -> Seq<char> {
    what + " '"@ + name + "'."@
}

/// The text `<what> '<name>'.`
pub fn quote(what: &str, name: &str) -> (text: String)
    ensures
        text@ == quoted(what@, name@),
{
    let mut text = String::from_str(what);
    text.append(" '");
    text.append(name);
    text.append("'.");
    text
}

impl RuntimeError {
    /// An error at `token` with the given message.
    pub fn new(token: Token, message: String) -> (error: RuntimeError)
        ensures
            error.token == token,
            error.message == message,
    {
        RuntimeError { token, message }
    }

    /// An error at `token` with the given message.
    pub fn at(token: &Token, message: &str) -> (error: RuntimeError)
        ensures
            error@ == (RuntimeErrorView { token: token@, message: message@ }),
            error.token == *token,
    {
        RuntimeError { token: token.clone(), message: String::from_str(message) }
    }

    /// The error for a variable that nothing defines.
    pub fn undefined_variable(name: &Token) -> (error: RuntimeError)
        ensures
            error@ == (RuntimeErrorView {
                token: name@,
                message: quoted("Undefined variable"@, name@.lexeme),
            }),
    {
        RuntimeError {
            token: name.clone(),
            message: quote("Undefined variable", name.lexeme.as_str()),
        }
    }

    /// The error for a property that an instance does not have.
    pub fn undefined_property(name: &Token) -> (error: RuntimeError)
        ensures
            error@ == (RuntimeErrorView {
                token: name@,
                message: quoted("Undefined property"@, name@.lexeme),
            }),
    {
        RuntimeError {
            token: name.clone(),
            message: quote("Undefined property", name.lexeme.as_str()),
        }
    }

    /// The diagnostic line for this error. It names the line only.
    pub fn to_string(&self) -> (text: String)
        ensures
            text@ == diagnostic(self.token.line as nat, Seq::empty(), self.message@),
    {
        let text = format_err(self.token.line, "", self.message.as_str());
        proof {
            reveal_strlit("");
            assert(""@ =~= Seq::<char>::empty());
        }
        text
    }
}

} // verus!
