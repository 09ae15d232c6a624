//! The one format every diagnostic is printed in.
use vstd::prelude::*;
use vstd::string::StringExecFns;
use crate::text::{decimal, push_decimal};
use crate::token::{Token, TokenType, TokenView};

verus! {

/// The text of a diagnostic: `[line N] Error<position>: <message>`.
pub open spec fn diagnostic(line: nat, position: Seq<char>, message: Seq<char>) -> Seq<char> {
    "[line "@ + decimal(line) + "] Error"@ + position + ": "@ + message
}

/// Formats a diagnostic for `line`. `position` says where on the line the
/// error was found (empty, ` at end`, or ` at '<lexeme>'`).
pub fn format_err(line: usize, position: &str, message: &str) -> (text: String)
    ensures
        text@ == diagnostic(line as nat, position@, message@),
{
    let mut text = String::from_str("[line ");
    push_decimal(&mut text, line);
    text.append("] Error");
    text.append(position);
    text.append(": ");
    text.append(message);
    text
}

/// Where a diagnostic says a token stands: ` at end` for the end of the
/// input, else ` at '<lexeme>'`.
pub open spec fn token_position(token: TokenView) -> Seq<char> {
    if token.typ == TokenType::Eof {
        " at end"@
    } else {
        " at '"@ + token.lexeme + "'"@
    }
}

/// Where a diagnostic says `token` stands.
pub fn position_of(token: &Token) -> (position: String)
    ensures
        position@ == token_position(token@),
{
    if token.typ == TokenType::Eof {
        String::from_str(" at end")
    } else {
        let mut position = String::from_str(" at '");
        position.append(token.lexeme.as_str());
        position.append("'");
        position
    }
}

} // verus!
