//! The syntax tree: expressions and statements.
use vstd::prelude::*;

pub mod expression;
pub mod statement;

pub use expression::{Expr, ExprView};
pub use statement::{FuncDeclaration, FuncDeclarationView, Stmt, StmtView};

verus! {

/// A literal as it stands in the source. A number is kept as its digits.
#[derive(Debug)]
pub enum LiteralValue {
    Nil,
    Boolean(bool),
    Text(String),
    Number(String),
}

/// A literal as a mathematical value.
pub enum LiteralView {
    Nil,
    Boolean(bool),
    Text(Seq<char>),
    Number(Seq<char>),
}

impl View for LiteralValue {
    type V = LiteralView;

    open spec fn view(&self) -> LiteralView {
        match *self {
            LiteralValue::Nil => LiteralView::Nil,
            LiteralValue::Boolean(b) => LiteralView::Boolean(b),
            LiteralValue::Text(text) => LiteralView::Text(text@),
            LiteralValue::Number(digits) => LiteralView::Number(digits@),
        }
    }
}

/// The text that a literal is shown as.
pub open spec fn literal_text(value: LiteralValue) -> Seq<char> {
    match value {
        LiteralValue::Nil => "Nil"@,
        LiteralValue::Boolean(b) => if b {
            "true"@
        } else {
            "false"@
        },
        LiteralValue::Text(text) => text@,
        LiteralValue::Number(digits) => digits@,
    }
}

impl LiteralValue {
    /// The text that the literal is shown as.
    pub fn to_string(&self) -> (text: String)
        ensures
            text@ == literal_text(*self),
    {
        match self {
            LiteralValue::Nil => "Nil".to_owned(),
            LiteralValue::Boolean(b) => if *b {
                "true".to_owned()
            } else {
                "false".to_owned()
            },
            LiteralValue::Text(text) => text.clone(),
            LiteralValue::Number(digits) => digits.clone(),
        }
    }
}

} // verus!
