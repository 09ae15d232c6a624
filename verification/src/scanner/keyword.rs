//! The reserved words.
use vstd::prelude::*;
use crate::text::str_eq;
use crate::token::TokenType;

verus! {

/// The reserved words, each with the kind of token it makes.
pub open spec fn keyword_table() -> Seq<(Seq<char>, TokenType)> {
    seq![
        ("and"@, TokenType::And),
        ("class"@, TokenType::Class),
        ("else"@, TokenType::Else),
        ("false"@, TokenType::False),
        ("for"@, TokenType::For),
        ("fun"@, TokenType::Fun),
        ("if"@, TokenType::If),
        ("nil"@, TokenType::Nil),
        ("or"@, TokenType::Or),
        ("print"@, TokenType::Print),
        ("return"@, TokenType::Return),
        ("super"@, TokenType::Super),
        ("this"@, TokenType::This),
        ("true"@, TokenType::True),
        ("var"@, TokenType::Var),
        ("while"@, TokenType::While),
    ]
}

/// The kind that the first entry of `table` with the word `word` gives, if
/// there is one.
pub open spec fn lookup(table: Seq<(Seq<char>, TokenType)>, word: Seq<char>) -> Option<TokenType>
    decreases table.len(),
{
    if table.len() == 0 {
        None
    } else if table[0].0 == word {
        Some(table[0].1)
    } else {
        lookup(table.drop_first(), word)
    }
}

/// The kind of token that `word` makes if it is reserved.
pub open spec fn keyword_type(word: Seq<char>) -> Option<TokenType> {
    lookup(keyword_table(), word)
}

/// A table of words as a mathematical value.
pub open spec fn table_view(table: Seq<(&'static str, TokenType)>) -> Seq<(Seq<char>, TokenType)> {
    Seq::new(table.len(), |i: int| (table[i].0@, table[i].1))
}

/// The reserved words, each with the kind of token it makes.
pub fn get_keywords() -> (table: Vec<(&'static str, TokenType)>)
    ensures
        table_view(table@) == keyword_table(),
{
    let mut table: Vec<(&'static str, TokenType)> = Vec::new();
    table.push(("and", TokenType::And));
    table.push(("class", TokenType::Class));
    table.push(("else", TokenType::Else));
    table.push(("false", TokenType::False));
    table.push(("for", TokenType::For));
    table.push(("fun", TokenType::Fun));
    table.push(("if", TokenType::If));
    table.push(("nil", TokenType::Nil));
    table.push(("or", TokenType::Or));
    table.push(("print", TokenType::Print));
    table.push(("return", TokenType::Return));
    table.push(("super", TokenType::Super));
    table.push(("this", TokenType::This));
    table.push(("true", TokenType::True));
    table.push(("var", TokenType::Var));
    table.push(("while", TokenType::While));
    assert(table_view(table@) =~= keyword_table());
    table
}

/// Looks `word` up among the reserved words.
pub fn keyword(word: &str) -> (kind: Option<TokenType>)
    ensures
        kind == keyword_type(word@),
{
    let table = get_keywords();
    let ghost whole = table_view(table@);
    let mut i: usize = 0;
    assert(whole.skip(0) =~= whole);
    while i < table.len()
        invariant
            i <= table.len(),
            whole == table_view(table@),
            whole == keyword_table(),
            lookup(whole, word@) == lookup(whole.skip(i as int), word@),
        decreases table.len() - i,
    {
        assert(whole.skip(i as int)[0] == (table[i as int].0@, table[i as int].1));
        if str_eq(table[i].0, word) {
            return Some(table[i].1);
        }
        assert(whole.skip(i as int).drop_first() =~= whole.skip(i as int + 1));
        i += 1;
    }
    None
}

} // verus!
