//! Expressions.
use vstd::prelude::*;
use vstd::string::StringExecFns;
use crate::ast::{literal_text, LiteralValue, LiteralView};
use crate::token::{Token, TokenView};

verus! {

/// An expression.
#[derive(Debug)]
#[allow(inconsistent_fields)]
pub enum Expr {
    Binary { left: Box<Expr>, operator: Token, right: Box<Expr> },
    Call { callee: Box<Expr>, paren: Token, arguments: Vec<Expr> },
    Get { object: Box<Expr>, name: Token },
    Grouping { expression: Box<Expr> },
    Literal { value: LiteralValue },
    Logical { left: Box<Expr>, operator: Token, right: Box<Expr> },
    SetProperty { object: Box<Expr>, name: Token, value: Box<Expr> },
    Super { keyword: Token, method: Token },
    This { keyword: Token },
    Unary { operator: Token, right: Box<Expr> },
    Variable { name: Token },
    Assign { name: Token, value: Box<Expr> },
}

/// An expression as a mathematical value.
#[allow(inconsistent_fields)]
pub enum ExprView {
    Binary { left: Box<ExprView>, operator: TokenView, right: Box<ExprView> },
    Call { callee: Box<ExprView>, paren: TokenView, arguments: Seq<ExprView> },
    Get { object: Box<ExprView>, name: TokenView },
    Grouping { expression: Box<ExprView> },
    Literal { value: LiteralView },
    Logical { left: Box<ExprView>, operator: TokenView, right: Box<ExprView> },
    SetProperty { object: Box<ExprView>, name: TokenView, value: Box<ExprView> },
    Super { keyword: TokenView, method: TokenView },
    This { keyword: TokenView },
    Unary { operator: TokenView, right: Box<ExprView> },
    Variable { name: TokenView },
    Assign { name: TokenView, value: Box<ExprView> },
}

/// The expression `expr` as a mathematical value.
pub open spec fn expr_view(expr: Expr) -> ExprView
    decreases expr,
{
    match expr {
        Expr::Binary { left, operator, right } => ExprView::Binary {
            left: Box::new(expr_view(*left)),
            operator: operator@,
            right: Box::new(expr_view(*right)),
        },
        Expr::Call { callee, paren, arguments } => ExprView::Call {
            callee: Box::new(expr_view(*callee)),
            paren: paren@,
            arguments: exprs_view(arguments@),
        },
        Expr::Get { object, name } => ExprView::Get {
            object: Box::new(expr_view(*object)),
            name: name@,
        },
        Expr::Grouping { expression } => ExprView::Grouping {
            expression: Box::new(expr_view(*expression)),
        },
        Expr::Literal { value } => ExprView::Literal { value: value@ },
        Expr::Logical { left, operator, right } => ExprView::Logical {
            left: Box::new(expr_view(*left)),
            operator: operator@,
            right: Box::new(expr_view(*right)),
        },
        Expr::SetProperty { object, name, value } => ExprView::SetProperty {
            object: Box::new(expr_view(*object)),
            name: name@,
            value: Box::new(expr_view(*value)),
        },
        Expr::Super { keyword, method } => ExprView::Super { keyword: keyword@, method: method@ },
        Expr::This { keyword } => ExprView::This { keyword: keyword@ },
        Expr::Unary { operator, right } => ExprView::Unary {
            operator: operator@,
            right: Box::new(expr_view(*right)),
        },
        Expr::Variable { name } => ExprView::Variable { name: name@ },
        Expr::Assign { name, value } => ExprView::Assign {
            name: name@,
            value: Box::new(expr_view(*value)),
        },
    }
}

/// The expressions of `exprs` as mathematical values.
pub open spec fn exprs_view(exprs: Seq<Expr>) -> Seq<ExprView>
    decreases exprs,
{
    Seq::new(
        exprs.len(),
        |i: int|
            if 0 <= i < exprs.len() {
                expr_view(exprs[i])
            } else {
                ExprView::Literal { value: LiteralView::Nil }
            },
    )
}

impl View for Expr {
    type V = ExprView;

    open spec fn view(&self) -> ExprView {
        expr_view(*self)
    }
}

/// The identity of an expression that refers to a variable: that of the
/// token that names it. Two references to one name are two tokens, and so
/// two identities. Other expressions have none.
pub open spec fn node_id(expr: Expr) -> Option<u64> {
    match expr {
        Expr::Variable { name } => Some(name.id),
        Expr::Assign { name, .. } => Some(name.id),
        Expr::This { keyword } => Some(keyword.id),
        Expr::Super { keyword, .. } => Some(keyword.id),
        _ => None,
    }
}

/// The text `(<name><parts>)`.
pub open spec fn parenthesized(name: Seq<char>, parts: Seq<char>) -> Seq<char> {
    "("@ + name + parts + ")"@
}

/// The text that an expression is printed as, for debugging: a literal is
/// its text, and what has parts is `(<name> <part> ...)`.
pub open spec fn printed(expr: Expr) -> Seq<char>
    decreases expr, 0nat,
{
    match expr {
        Expr::Binary { left, operator, right } => parenthesized(
            operator.lexeme@,
            " "@ + printed(*left) + " "@ + printed(*right),
        ),
        Expr::Call { callee, arguments, .. } => parenthesized(
            "function"@,
            " "@ + printed(*callee) + printed_from(arguments, 0),
        ),
        Expr::Get { object, name } => parenthesized(
            "Get "@ + name.lexeme@,
            " "@ + printed(*object),
        ),
        Expr::Grouping { expression } => parenthesized("group"@, " "@ + printed(*expression)),
        Expr::Literal { value } => literal_text(value),
        Expr::Logical { left, operator, right } => parenthesized(
            operator.lexeme@,
            " "@ + printed(*left) + " "@ + printed(*right),
        ),
        Expr::SetProperty { object, name, value } => parenthesized(
            "Set "@ + name.lexeme@,
            " "@ + printed(*object) + " "@ + printed(*value),
        ),
        Expr::Super { method, .. } => "super."@ + method.lexeme@,
        Expr::This { .. } => "This"@,
        Expr::Unary { operator, right } => parenthesized(
            operator.lexeme@,
            " "@ + printed(*right),
        ),
        Expr::Variable { name } => "Variable: "@ + name.lexeme@,
        Expr::Assign { value, .. } => parenthesized("assign"@, " "@ + printed(*value)),
    }
}

/// The expressions of `exprs` from index `from` on as they are printed,
/// each after a space.
pub open spec fn printed_from(exprs: Vec<Expr>, from: int) -> Seq<char>
    decreases exprs, exprs.len() - from,
{
    if 0 <= from < exprs.len() {
        " "@ + printed(exprs[from]) + printed_from(exprs, from + 1)
    } else {
        Seq::empty()
    }
}

/// The text `(<name><parts>)`.
fn parenthesize(name: &str, parts: &str) -> (text: String)
    ensures
        text@ == parenthesized(name@, parts@),
{
    let mut text = String::from_str("(");
    text.append(name);
    text.append(parts);
    text.append(")");
    text
}

/// The expressions of `exprs` as they are printed, each after a space.
fn print_all(exprs: &Vec<Expr>) -> (text: String)
    ensures
        text@ == printed_from(*exprs, 0),
    decreases exprs, 0nat,
{
    let mut text = String::new();
    let mut i: usize = 0;
    assert(text@ + printed_from(*exprs, 0) =~= printed_from(*exprs, 0));
    while i < exprs.len()
        invariant
            i <= exprs.len(),
            text@ + printed_from(*exprs, i as int) == printed_from(*exprs, 0),
        decreases exprs.len() - i,
    {
        let ghost before = text@;
        let part = exprs[i].print();
        text.append(" ");
        text.append(part.as_str());
        assert(text@ + printed_from(*exprs, i + 1) =~= before + printed_from(*exprs, i as int));
        i += 1;
    }
    assert(text@ + printed_from(*exprs, i as int) =~= text@);
    text
}

impl Expr {
    /// The text that the expression is printed as, for debugging.
    pub fn print(&self) -> (text: String)
        ensures
            text@ == printed(*self),
        decreases self, 0nat,
    {
        match self {
            Expr::Binary { left, operator, right } => {
                let mut parts = String::from_str(" ");
                parts.append(left.print().as_str());
                parts.append(" ");
                parts.append(right.print().as_str());
                parenthesize(operator.lexeme.as_str(), parts.as_str())
            },
            Expr::Grouping { expression } => {
                let mut parts = String::from_str(" ");
                parts.append(expression.print().as_str());
                parenthesize("group", parts.as_str())
            },
            Expr::Literal { value } => value.to_string(),
            Expr::Unary { operator, right } => {
                let mut parts = String::from_str(" ");
                parts.append(right.print().as_str());
                parenthesize(operator.lexeme.as_str(), parts.as_str())
            },
            Expr::Variable { name } => {
                let mut text = String::from_str("Variable: ");
                text.append(name.lexeme.as_str());
                text
            },
            Expr::Assign { name: _, value } => {
                let mut parts = String::from_str(" ");
                parts.append(value.print().as_str());
                parenthesize("assign", parts.as_str())
            },
            Expr::Logical { left, operator, right } => {
                let mut parts = String::from_str(" ");
                parts.append(left.print().as_str());
                parts.append(" ");
                parts.append(right.print().as_str());
                parenthesize(operator.lexeme.as_str(), parts.as_str())
            },
            Expr::Call { callee, paren: _, arguments } => {
                let mut parts = String::from_str(" ");
                parts.append(callee.print().as_str());
                parts.append(print_all(arguments).as_str());
                parenthesize("function", parts.as_str())
            },
            Expr::Get { object, name } => {
                let mut head = String::from_str("Get ");
                head.append(name.lexeme.as_str());
                let mut parts = String::from_str(" ");
                parts.append(object.print().as_str());
                parenthesize(head.as_str(), parts.as_str())
            },
            Expr::SetProperty { object, name, value } => {
                let mut head = String::from_str("Set ");
                head.append(name.lexeme.as_str());
                let mut parts = String::from_str(" ");
                parts.append(object.print().as_str());
                parts.append(" ");
                parts.append(value.print().as_str());
                parenthesize(head.as_str(), parts.as_str())
            },
            Expr::This { keyword: _ } => String::from_str("This"),
            Expr::Super { keyword: _, method } => {
                let mut text = String::from_str("super.");
                text.append(method.lexeme.as_str());
                text
            },
        }
    }

    /// The identity of this expression, if it refers to a variable.
    pub fn id(&self) -> (id: Option<u64>)
        ensures
            id == node_id(*self),
    {
        match self {
            Expr::Variable { name } => Some(name.id),
            Expr::Assign { name, .. } => Some(name.id),
            Expr::This { keyword } => Some(keyword.id),
            Expr::Super { keyword, .. } => Some(keyword.id),
            _ => None,
        }
    }
}

} // verus!
