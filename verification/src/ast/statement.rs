//! Statements.
use std::rc::Rc;
use vstd::prelude::*;
use crate::ast::{Expr, ExprView};
use crate::token::{token_views, Token, TokenView};

verus! {

/// A statement.
#[derive(Debug)]
pub enum Stmt {
    Expression(Expr),
    Function(Rc<FuncDeclaration>),
    If { condition: Expr, then_branch: Box<Stmt>, else_branch: Option<Box<Stmt>> },
    Print(Expr),
    Return { keyword: Token, value_expr: Option<Expr> },
    Var { name: Token, initializer: Option<Expr> },
    While { condition: Expr, body: Box<Stmt> },
    Block { statements: Vec<Stmt> },
    Class { name: Token, super_class: Option<Token>, methods: Vec<Rc<FuncDeclaration>> },
}

/// A function or a method: its name, its parameters and its body. The
/// declaration is shared between the tree and the functions made from it.
#[derive(Debug)]
pub struct FuncDeclaration {
    pub name: Token,
    pub params: Vec<Token>,
    pub body: Vec<Stmt>,
}

/// A statement as a mathematical value.
pub enum StmtView {
    Expression(ExprView),
    Function(FuncDeclarationView),
    If { condition: ExprView, then_branch: Box<StmtView>, else_branch: Option<Box<StmtView>> },
    Print(ExprView),
    Return { keyword: TokenView, value_expr: Option<ExprView> },
    Var { name: TokenView, initializer: Option<ExprView> },
    While { condition: ExprView, body: Box<StmtView> },
    Block { statements: Seq<StmtView> },
    Class { name: TokenView, super_class: Option<TokenView>, methods: Seq<FuncDeclarationView> },
}

/// A declaration as a mathematical value.
pub struct FuncDeclarationView {
    pub name: TokenView,
    pub params: Seq<TokenView>,
    pub body: Seq<StmtView>,
}

/// An expression that may be missing, as a mathematical value.
pub open spec fn optional_view(expr: Option<Expr>) -> Option<ExprView> {
    match expr {
        Some(expr) => Some(expr@),
        None => None,
    }
}

/// A statement that may be missing, as a mathematical value.
pub open spec fn optional_statement(stmt: Option<Stmt>) -> Option<StmtView> {
    match stmt {
        Some(stmt) => Some(stmt@),
        None => None,
    }
}

/// The methods of `methods` as mathematical values.
pub open spec fn methods_view(methods: Vec<Rc<FuncDeclaration>>) -> Seq<FuncDeclarationView>
    decreases methods,
{
    Seq::new(
        methods.len() as nat,
        |i: int|
            if 0 <= i < methods.len() {
                declaration_view(*methods[i])
            } else {
                FuncDeclarationView {
                    name: arbitrary(),
                    params: Seq::empty(),
                    body: Seq::empty(),
                }
            },
    )
}

/// The statement `stmt` as a mathematical value.
pub open spec fn stmt_view(stmt: Stmt) -> StmtView
    decreases stmt,
{
    match stmt {
        Stmt::Expression(expr) => StmtView::Expression(expr@),
        Stmt::Function(declaration) => StmtView::Function(declaration_view(*declaration)),
        Stmt::If { condition, then_branch, else_branch } => StmtView::If {
            condition: condition@,
            then_branch: Box::new(stmt_view(*then_branch)),
            else_branch: match else_branch {
                Some(other) => Some(Box::new(stmt_view(*other))),
                None => None,
            },
        },
        Stmt::Print(expr) => StmtView::Print(expr@),
        Stmt::Return { keyword, value_expr } => StmtView::Return {
            keyword: keyword@,
            value_expr: optional_view(value_expr),
        },
        Stmt::Var { name, initializer } => StmtView::Var {
            name: name@,
            initializer: optional_view(initializer),
        },
        Stmt::While { condition, body } => StmtView::While {
            condition: condition@,
            body: Box::new(stmt_view(*body)),
        },
        Stmt::Block { statements } => StmtView::Block { statements: stmts_view(statements) },
        Stmt::Class { name, super_class, methods } => StmtView::Class {
            name: name@,
            super_class: match super_class {
                Some(parent) => Some(parent@),
                None => None,
            },
            methods: methods_view(methods),
        },
    }
}

/// The statements of `stmts` as mathematical values.
pub open spec fn stmts_view(stmts: Vec<Stmt>) -> Seq<StmtView>
    decreases stmts,
{
    Seq::new(
        stmts.len() as nat,
        |i: int|
            if 0 <= i < stmts.len() {
                stmt_view(stmts[i])
            } else {
                StmtView::Block { statements: Seq::empty() }
            },
    )
}

/// The declaration `declaration` as a mathematical value.
pub open spec fn declaration_view(declaration: FuncDeclaration) -> FuncDeclarationView
    decreases declaration,
{
    FuncDeclarationView {
        name: declaration.name@,
        params: token_views(declaration.params@),
        body: stmts_view(declaration.body),
    }
}

impl View for Stmt {
    type V = StmtView;

    open spec fn view(&self) -> StmtView {
        stmt_view(*self)
    }
}

impl View for FuncDeclaration {
    type V = FuncDeclarationView;

    open spec fn view(&self) -> FuncDeclarationView {
        declaration_view(*self)
    }
}

impl FuncDeclaration {
    /// The declaration of `name` with the given parameters and body.
    pub fn new(name: Token, params: Vec<Token>, body: Vec<Stmt>) -> (declaration: FuncDeclaration)
        ensures
            declaration.name == name,
            declaration.params == params,
            declaration.body == body,
    {
        FuncDeclaration { name, params, body }
    }
}

} // verus!
