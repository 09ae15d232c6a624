//! Tokens: what the scanner produces and the parser consumes.
use vstd::prelude::*;
use crate::text::{chars_of, slice_text};

verus! {

/// The kind of a token.
#[derive(Debug, Clone, Copy, PartialEq, Eq, Structural)]
pub enum TokenType {
    // Single-character tokens.
    LeftParen,
    RightParen,
    LeftBrace,
    RightBrace,
    Comma,
    Dot,
    Minus,
    Plus,
    SemiColon,
    Slash,
    Star,
    // One or two character tokens.
    Bang,
    BangEqual,
    Equal,
    EqualEqual,
    Greater,
    GreaterEqual,
    Less,
    LessEqual,
    // Literals. The lexeme holds the text: the name of an identifier, a
    // string with its quotes, the digits of a number.
    Identifier,
    String,
    Number,
    // Keywords.
    And,
    Class,
    Else,
    False,
    Fun,
    For,
    If,
    Nil,
    Or,
    Print,
    Return,
    Super,
    This,
    True,
    Var,
    While,
    Eof,
}

/// A token: its kind, the text it was read from, the line it stands on, and
/// an identity that tells it from every other token of the same text.
#[derive(Debug, PartialEq, Eq)]
pub struct Token {
    pub id: u64,
    pub typ: TokenType,
    pub lexeme: String,
    pub line: usize,
}

/// A token as a mathematical value.
pub struct TokenView {
    pub id: u64,
    pub typ: TokenType,
    pub lexeme: Seq<char>,
    pub line: usize,
}

impl View for Token {
    type V = TokenView;

    open spec fn view(&self) -> TokenView {
        TokenView { id: self.id, typ: self.typ, lexeme: self.lexeme@, line: self.line }
    }
}

impl Clone for Token {
    fn clone(&self) -> (copy: Self)
        ensures
            copy == *self,
    {
        Token { id: self.id, typ: self.typ, lexeme: self.lexeme.clone(), line: self.line }
    }
}

impl Token {
    /// A token of kind `typ` with identity `id`, read from `lexeme` on `line`.
    pub fn new(id: u64, typ: TokenType, lexeme: String, line: usize) -> (token: Token)
        ensures
            token.id == id,
            token.typ == typ,
            token.lexeme == lexeme,
            token.line == line,
    {
        Token { id, typ, lexeme, line }
    }

    /// The text of the token, as it stood in the source.
    pub fn to_string(&self) -> (text: String)
        ensures
            text@ == self.lexeme@,
    {
        self.lexeme.clone()
    }
}

/// The tokens of `tokens` as mathematical values.
pub open spec fn token_views(tokens: Seq<Token>) -> Seq<TokenView> {
    Seq::new(tokens.len(), |i: int| tokens[i]@)
}

/// The name of a kind of token.
pub open spec fn kind_name(typ: TokenType) -> Seq<char> {
    match typ {
        TokenType::LeftParen => "LeftParen"@,
        TokenType::RightParen => "RightParen"@,
        TokenType::LeftBrace => "LeftBrace"@,
        TokenType::RightBrace => "RightBrace"@,
        TokenType::Comma => "Comma"@,
        TokenType::Dot => "Dot"@,
        TokenType::Minus => "Minus"@,
        TokenType::Plus => "Plus"@,
        TokenType::SemiColon => "SemiColon"@,
        TokenType::Slash => "Slash"@,
        TokenType::Star => "Star"@,
        TokenType::Bang => "Bang"@,
        TokenType::BangEqual => "BangEqual"@,
        TokenType::Equal => "Equal"@,
        TokenType::EqualEqual => "EqualEqual"@,
        TokenType::Greater => "Greater"@,
        TokenType::GreaterEqual => "GreaterEqual"@,
        TokenType::Less => "Less"@,
        TokenType::LessEqual => "LessEqual"@,
        TokenType::Identifier => "Identifier"@,
        TokenType::String => "String"@,
        TokenType::Number => "Number"@,
        TokenType::And => "And"@,
        TokenType::Class => "Class"@,
        TokenType::Else => "Else"@,
        TokenType::False => "False"@,
        TokenType::Fun => "Fun"@,
        TokenType::For => "For"@,
        TokenType::If => "If"@,
        TokenType::Nil => "Nil"@,
        TokenType::Or => "Or"@,
        TokenType::Print => "Print"@,
        TokenType::Return => "Return"@,
        TokenType::Super => "Super"@,
        TokenType::This => "This"@,
        TokenType::True => "True"@,
        TokenType::Var => "Var"@,
        TokenType::While => "While"@,
        TokenType::Eof => "Eof"@,
    }
}

/// What a string literal holds: its lexeme without the quotes around it.
pub open spec fn string_contents(lexeme: Seq<char>) -> Seq<char> {
    if lexeme.len() >= 2 {
        lexeme.subrange(1, lexeme.len() - 1)
    } else {
        Seq::empty()
    }
}

impl TokenType {
    /// The name of this kind of token.
    pub fn name(&self) -> (name: &'static str)
        ensures
            name@ == kind_name(*self),
    {
        match self {
            TokenType::LeftParen => "LeftParen",
            TokenType::RightParen => "RightParen",
            TokenType::LeftBrace => "LeftBrace",
            TokenType::RightBrace => "RightBrace",
            TokenType::Comma => "Comma",
            TokenType::Dot => "Dot",
            TokenType::Minus => "Minus",
            TokenType::Plus => "Plus",
            TokenType::SemiColon => "SemiColon",
            TokenType::Slash => "Slash",
            TokenType::Star => "Star",
            TokenType::Bang => "Bang",
            TokenType::BangEqual => "BangEqual",
            TokenType::Equal => "Equal",
            TokenType::EqualEqual => "EqualEqual",
            TokenType::Greater => "Greater",
            TokenType::GreaterEqual => "GreaterEqual",
            TokenType::Less => "Less",
            TokenType::LessEqual => "LessEqual",
            TokenType::Identifier => "Identifier",
            TokenType::String => "String",
            TokenType::Number => "Number",
            TokenType::And => "And",
            TokenType::Class => "Class",
            TokenType::Else => "Else",
            TokenType::False => "False",
            TokenType::Fun => "Fun",
            TokenType::For => "For",
            TokenType::If => "If",
            TokenType::Nil => "Nil",
            TokenType::Or => "Or",
            TokenType::Print => "Print",
            TokenType::Return => "Return",
            TokenType::Super => "Super",
            TokenType::This => "This",
            TokenType::True => "True",
            TokenType::Var => "Var",
            TokenType::While => "While",
            TokenType::Eof => "Eof",
        }
    }
}

impl Token {
    /// What the token holds if it is a string literal: its lexeme without
    /// the quotes around it.
    pub fn contents(&self) -> (text: String)
        ensures
            text@ == string_contents(self.lexeme@),
    {
        let chars = chars_of(self.lexeme.as_str());
        if chars.len() >= 2 {
            slice_text(&chars, 1, chars.len() - 1)
        } else {
            String::new()
        }
    }
}

} // verus!
