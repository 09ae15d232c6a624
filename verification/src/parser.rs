//! The parser: from tokens to statements, by recursive descent.
//!
//! The grammar, from the loosest binding to the tightest: assignment, `or`,
//! `and`, equality, comparison, term, factor, unary, call, primary. The
//! functions named `..._spec` say what each rule makes of the tokens from a
//! position on; the parser's methods compute it.
use vstd::prelude::*;
use vstd::string::StringExecFns;
use std::rc::Rc;
use crate::ast::expression::exprs_view;
use crate::ast::statement::{methods_view, optional_statement, stmts_view};
use crate::ast::{
    Expr, ExprView, FuncDeclaration, FuncDeclarationView, LiteralValue, LiteralView, Stmt, StmtView,
};
use crate::token::{kind_name, string_contents, token_views, Token, TokenType, TokenView};

pub mod error;

pub use error::{ParseError, ParseErrorView};

verus! {

/// The most arguments that a call can have.
pub const MAX_ARGS_COUNT: usize = 255;

/// What a rule made of the tokens: where the next rule goes on, and the
/// tree, or the error that stopped the rule.
pub struct Parsed<T> {
    pub pos: int,
    pub result: Result<T, ParseErrorView>,
}

/// The kind of the token at `pos`. Past the tokens is the end of the input.
pub open spec fn kind_at(tokens: Seq<TokenView>, pos: int) -> TokenType {
    if 0 <= pos < tokens.len() {
        tokens[pos].typ
    } else {
        TokenType::Eof
    }
}

/// Whether `to` is a position in the tokens that is not before `from`. The
/// rules only ever move forward inside the tokens.
pub open spec fn within(tokens: Seq<TokenView>, from: int, to: int) -> bool {
    from <= to <= tokens.len()
}

/// The rule went through at `pos` and made `tree`.
pub open spec fn made<T>(pos: int, tree: T) -> Parsed<T> {
    Parsed { pos, result: Ok(tree) }
}

/// The rule stopped at the token at `pos` for the reason `msg`.
pub open spec fn stopped<T>(tokens: Seq<TokenView>, pos: int, msg: Seq<char>) -> Parsed<T> {
    Parsed { pos, result: Err(ParseErrorView { token: tokens[pos], msg }) }
}

/// The rule stopped where `inner` stopped, for the same reason.
pub open spec fn passed<S, T>(inner: Parsed<S>) -> Parsed<T> {
    Parsed {
        pos: inner.pos,
        result: match inner.result {
            Err(error) => Err(error),
            Ok(_) => Err(arbitrary()),
        },
    }
}

/// How tight a binary operator binds: 1 for `/` and `*` up to 6 for `or`,
/// and 0 for what is no binary operator.
pub open spec fn operator_level(typ: TokenType) -> nat {
    match typ {
        TokenType::Slash | TokenType::Star => 1,
        TokenType::Plus | TokenType::Minus => 2,
        TokenType::Greater
        | TokenType::GreaterEqual
        | TokenType::Less
        | TokenType::LessEqual => 3,
        TokenType::BangEqual | TokenType::EqualEqual => 4,
        TokenType::And => 5,
        TokenType::Or => 6,
        _ => 0,
    }
}

/// The tree of a binary operator of the given level: `and` and `or` make a
/// logical expression, the others a binary one.
pub open spec fn joined(level: nat, left: ExprView, operator: TokenView, right: ExprView) -> ExprView {
    if level >= 5 {
        ExprView::Logical { left: Box::new(left), operator, right: Box::new(right) }
    } else {
        ExprView::Binary { left: Box::new(left), operator, right: Box::new(right) }
    }
}

/// The message for a token that starts no expression.
pub open spec fn no_expression(typ: TokenType) -> Seq<char> {
    "Expect expression, found "@ + kind_name(typ)
}

/// primary → "true" | "false" | "nil" | NUMBER | STRING | "this"
///         | IDENTIFIER | "(" expression ")" | "super" "." IDENTIFIER
#[verifier::opaque]
pub open spec fn primary_spec(tokens: Seq<TokenView>, pos: int) -> Parsed<ExprView>
    decreases tokens.len() - pos, 0nat,
{
    match kind_at(tokens, pos) {
        TokenType::False => made(
            pos + 1,
            ExprView::Literal { value: LiteralView::Boolean(false) },
        ),
        TokenType::True => made(pos + 1, ExprView::Literal { value: LiteralView::Boolean(true) }),
        TokenType::Nil => made(pos + 1, ExprView::Literal { value: LiteralView::Nil }),
        TokenType::String => made(
            pos + 1,
            ExprView::Literal { value: LiteralView::Text(string_contents(tokens[pos].lexeme)) },
        ),
        TokenType::Number => made(
            pos + 1,
            ExprView::Literal { value: LiteralView::Number(tokens[pos].lexeme) },
        ),
        TokenType::LeftParen => {
            let inner = expression_spec(tokens, pos + 1);
            match inner.result {
                Err(_) => inner,
                Ok(expression) => if kind_at(tokens, inner.pos) == TokenType::RightParen {
                    made(inner.pos + 1, ExprView::Grouping { expression: Box::new(expression) })
                } else {
                    stopped(tokens, inner.pos, "Expect ')' after expression."@)
                },
            }
        },
        TokenType::This => made(pos + 1, ExprView::This { keyword: tokens[pos] }),
        TokenType::Super => if kind_at(tokens, pos + 1) != TokenType::Dot {
            stopped(tokens, pos + 1, "Expect '.' after 'super'."@)
        } else if kind_at(tokens, pos + 2) != TokenType::Identifier {
            stopped(tokens, pos + 2, "Expect superclass method name."@)
        } else {
            made(pos + 3, ExprView::Super { keyword: tokens[pos], method: tokens[pos + 2] })
        },
        TokenType::Identifier => made(pos + 1, ExprView::Variable { name: tokens[pos] }),
        other => stopped(tokens, pos, no_expression(other)),
    }
}

/// arguments → expression ( "," expression )*
///
/// The arguments from `pos` on, after the arguments `before`. There are
/// never more than 255.
#[verifier::opaque]
pub open spec fn arguments_spec(tokens: Seq<TokenView>, pos: int, before: Seq<ExprView>) -> Parsed<
    Seq<ExprView>,
>
    decreases tokens.len() - pos, 30nat,
{
    if before.len() >= MAX_ARGS_COUNT {
        stopped(tokens, pos, "Can't have more than 255 arguments."@)
    } else {
        let first = expression_spec(tokens, pos);
        match first.result {
            Err(_) => passed(first),
            Ok(argument) => if kind_at(tokens, first.pos) == TokenType::Comma && within(tokens, pos, first.pos) {
                arguments_spec(tokens, first.pos + 1, before.push(argument))
            } else {
                made(first.pos, before.push(argument))
            },
        }
    }
}

/// The call of `callee` whose "(" stands before `pos`: the arguments, if
/// any, and the ")".
#[verifier::opaque]
pub open spec fn finish_call_spec(tokens: Seq<TokenView>, pos: int, callee: ExprView) -> Parsed<ExprView>
    decreases tokens.len() - pos, 31nat,
{
    let arguments = if kind_at(tokens, pos) == TokenType::RightParen {
        made(pos, Seq::empty())
    } else {
        arguments_spec(tokens, pos, Seq::empty())
    };
    match arguments.result {
        Err(_) => passed(arguments),
        Ok(list) => if kind_at(tokens, arguments.pos) == TokenType::RightParen {
            made(
                arguments.pos + 1,
                ExprView::Call {
                    callee: Box::new(callee),
                    paren: tokens[arguments.pos],
                    arguments: list,
                },
            )
        } else {
            stopped(tokens, arguments.pos, "Expect ')' after arguments."@)
        },
    }
}

/// What follows a primary expression: calls and property reads, applied to
/// `callee` from left to right.
#[verifier::opaque]
pub open spec fn call_rest_spec(tokens: Seq<TokenView>, pos: int, callee: ExprView) -> Parsed<ExprView>
    decreases tokens.len() - pos, 1nat,
{
    match kind_at(tokens, pos) {
        TokenType::LeftParen => {
            let call = finish_call_spec(tokens, pos + 1, callee);
            match call.result {
                Err(_) => call,
                Ok(expr) => if within(tokens, pos + 1, call.pos) {
                    call_rest_spec(tokens, call.pos, expr)
                } else {
                    call
                },
            }
        },
        TokenType::Dot => if kind_at(tokens, pos + 1) == TokenType::Identifier {
            call_rest_spec(
                tokens,
                pos + 2,
                ExprView::Get { object: Box::new(callee), name: tokens[pos + 1] },
            )
        } else {
            stopped(tokens, pos + 1, "Expect property name after '.'."@)
        },
        _ => made(pos, callee),
    }
}

/// call → primary ( "(" arguments? ")" | "." IDENTIFIER )*
#[verifier::opaque]
pub open spec fn call_spec(tokens: Seq<TokenView>, pos: int) -> Parsed<ExprView>
    decreases tokens.len() - pos, 2nat,
{
    let first = primary_spec(tokens, pos);
    match first.result {
        Err(_) => first,
        Ok(callee) => if within(tokens, pos, first.pos) {
            call_rest_spec(tokens, first.pos, callee)
        } else {
            first
        },
    }
}

/// unary → ( "!" | "-" ) unary | call
#[verifier::opaque]
pub open spec fn unary_spec(tokens: Seq<TokenView>, pos: int) -> Parsed<ExprView>
    decreases tokens.len() - pos, 3nat,
{
    if kind_at(tokens, pos) == TokenType::Bang || kind_at(tokens, pos) == TokenType::Minus {
        let right = unary_spec(tokens, pos + 1);
        match right.result {
            Err(_) => right,
            Ok(operand) => made(
                right.pos,
                ExprView::Unary { operator: tokens[pos], right: Box::new(operand) },
            ),
        }
    } else {
        call_spec(tokens, pos)
    }
}

/// The binary operators of level `level` and their right operands from
/// `pos` on, applied to `left` from left to right.
#[verifier::opaque]
pub open spec fn binary_rest_spec(tokens: Seq<TokenView>, pos: int, level: nat, left: ExprView) -> Parsed<
    ExprView,
>
    decreases tokens.len() - pos, 2 * level + 4,
{
    if level > 0 && operator_level(kind_at(tokens, pos)) == level {
        let right = binary_spec(tokens, pos + 1, (level - 1) as nat);
        match right.result {
            Err(_) => right,
            Ok(operand) => if within(tokens, pos + 1, right.pos) {
                binary_rest_spec(
                    tokens,
                    right.pos,
                    level,
                    joined(level, left, tokens[pos], operand),
                )
            } else {
                right
            },
        }
    } else {
        made(pos, left)
    }
}

/// The expressions whose operators bind as tight as `level` or tighter:
///
/// ```text
/// logic_or   → logic_and ( "or" logic_and )*                    (6)
/// logic_and  → equality ( "and" equality )*                     (5)
/// equality   → comparison ( ( "!=" | "==" ) comparison )*       (4)
/// comparison → term ( ( ">" | ">=" | "<" | "<=" ) term )*       (3)
/// term       → factor ( ( "-" | "+" ) factor )*                 (2)
/// factor     → unary ( ( "/" | "*" ) unary )*                   (1)
/// ```
#[verifier::opaque]
pub open spec fn binary_spec(tokens: Seq<TokenView>, pos: int, level: nat) -> Parsed<ExprView>
    decreases tokens.len() - pos, 2 * level + 5,
{
    if level == 0 {
        unary_spec(tokens, pos)
    } else {
        let first = binary_spec(tokens, pos, (level - 1) as nat);
        match first.result {
            Err(_) => first,
            Ok(left) => if within(tokens, pos, first.pos) {
                binary_rest_spec(tokens, first.pos, level, left)
            } else {
                first
            },
        }
    }
}

/// assignment → ( call "." )? IDENTIFIER "=" assignment | logic_or
///
/// What stands left of "=" is parsed as an expression, and must turn out to
/// be a variable or a property.
#[verifier::opaque]
pub open spec fn assignment_spec(tokens: Seq<TokenView>, pos: int) -> Parsed<ExprView>
    decreases tokens.len() - pos, 20nat,
{
    let left = binary_spec(tokens, pos, 6);
    match left.result {
        Err(_) => left,
        Ok(target) => if kind_at(tokens, left.pos) == TokenType::Equal && within(
            tokens,
            pos,
            left.pos,
        ) {
            let right = assignment_spec(tokens, left.pos + 1);
            match right.result {
                Err(_) => right,
                Ok(value) => match target {
                    ExprView::Variable { name } => made(
                        right.pos,
                        ExprView::Assign { name, value: Box::new(value) },
                    ),
                    ExprView::Get { object, name } => made(
                        right.pos,
                        ExprView::SetProperty { object, name, value: Box::new(value) },
                    ),
                    _ => Parsed {
                        pos: right.pos,
                        result: Err(
                            ParseErrorView {
                                token: tokens[left.pos],
                                msg: "Invalid assignment target."@,
                            },
                        ),
                    },
                },
            }
        } else {
            left
        },
    }
}

/// expression → assignment
#[verifier::opaque]
pub open spec fn expression_spec(tokens: Seq<TokenView>, pos: int) -> Parsed<ExprView>
    decreases tokens.len() - pos, 21nat,
{
    assignment_spec(tokens, pos)
}

/// What holds of where a rule stops: inside the tokens, not before `pos`,
/// and after `pos` if the rule went through.
pub open spec fn forward<T>(tokens: Seq<TokenView>, pos: int, parsed: Parsed<T>) -> bool {
    within(tokens, pos, parsed.pos) && (parsed.result is Ok ==> parsed.pos > pos)
}

/// The rules for expressions only ever move forward inside the tokens, and
/// an expression is at least one token long. So wherever the definition of
/// a rule asks whether a position is `within` the tokens, it is.
pub proof fn lemma_expression_forward(tokens: Seq<TokenView>, pos: int)
    requires
        0 <= pos <= tokens.len(),
    ensures
        forward(tokens, pos, expression_spec(tokens, pos)),
    decreases tokens.len() - pos, 21nat,
{
    reveal(expression_spec);
    reveal(assignment_spec);
    lemma_assignment_forward(tokens, pos);
}

proof fn lemma_assignment_forward(tokens: Seq<TokenView>, pos: int)
    requires
        0 <= pos <= tokens.len(),
    ensures
        forward(tokens, pos, assignment_spec(tokens, pos)),
    decreases tokens.len() - pos, 20nat,
{
    reveal(assignment_spec);
    reveal(binary_spec);
    lemma_binary_forward(tokens, pos, 6);
    let left = binary_spec(tokens, pos, 6);
    if left.result is Ok && kind_at(tokens, left.pos) == TokenType::Equal {
        lemma_assignment_forward(tokens, left.pos + 1);
    }
}

proof fn lemma_binary_forward(tokens: Seq<TokenView>, pos: int, level: nat)
    requires
        0 <= pos <= tokens.len(),
    ensures
        forward(tokens, pos, binary_spec(tokens, pos, level)),
    decreases tokens.len() - pos, 2 * level + 5,
{
    reveal(binary_spec);
    reveal(binary_rest_spec);
    reveal(unary_spec);
    if level == 0 {
        lemma_unary_forward(tokens, pos);
    } else {
        lemma_binary_forward(tokens, pos, (level - 1) as nat);
        let first = binary_spec(tokens, pos, (level - 1) as nat);
        if first.result is Ok {
            lemma_binary_rest_forward(tokens, first.pos, level, first.result->Ok_0);
        }
    }
}

proof fn lemma_binary_rest_forward(tokens: Seq<TokenView>, pos: int, level: nat, left: ExprView)
    requires
        0 <= pos <= tokens.len(),
    ensures
        within(tokens, pos, binary_rest_spec(tokens, pos, level, left).pos),
    decreases tokens.len() - pos, 2 * level + 4,
{
    reveal(binary_rest_spec);
    reveal(binary_spec);
    if level > 0 && operator_level(kind_at(tokens, pos)) == level {
        lemma_binary_forward(tokens, pos + 1, (level - 1) as nat);
        let right = binary_spec(tokens, pos + 1, (level - 1) as nat);
        if right.result is Ok {
            lemma_binary_rest_forward(
                tokens,
                right.pos,
                level,
                joined(level, left, tokens[pos], right.result->Ok_0),
            );
        }
    }
}

proof fn lemma_unary_forward(tokens: Seq<TokenView>, pos: int)
    requires
        0 <= pos <= tokens.len(),
    ensures
        forward(tokens, pos, unary_spec(tokens, pos)),
    decreases tokens.len() - pos, 3nat,
{
    reveal(unary_spec);
    reveal(call_spec);
    if kind_at(tokens, pos) == TokenType::Bang || kind_at(tokens, pos) == TokenType::Minus {
        lemma_unary_forward(tokens, pos + 1);
    } else {
        lemma_call_forward(tokens, pos);
    }
}

proof fn lemma_call_forward(tokens: Seq<TokenView>, pos: int)
    requires
        0 <= pos <= tokens.len(),
    ensures
        forward(tokens, pos, call_spec(tokens, pos)),
    decreases tokens.len() - pos, 2nat,
{
    reveal(call_spec);
    reveal(call_rest_spec);
    reveal(primary_spec);
    lemma_primary_forward(tokens, pos);
    let first = primary_spec(tokens, pos);
    if first.result is Ok {
        lemma_call_rest_forward(tokens, first.pos, first.result->Ok_0);
    }
}

proof fn lemma_call_rest_forward(tokens: Seq<TokenView>, pos: int, callee: ExprView)
    requires
        0 <= pos <= tokens.len(),
    ensures
        within(tokens, pos, call_rest_spec(tokens, pos, callee).pos),
    decreases tokens.len() - pos, 1nat,
{
    reveal(call_rest_spec);
    reveal(finish_call_spec);
    match kind_at(tokens, pos) {
        TokenType::LeftParen => {
            lemma_finish_call_forward(tokens, pos + 1, callee);
            let call = finish_call_spec(tokens, pos + 1, callee);
            if call.result is Ok {
                lemma_call_rest_forward(tokens, call.pos, call.result->Ok_0);
            }
        },
        TokenType::Dot => {
            if kind_at(tokens, pos + 1) == TokenType::Identifier {
                lemma_call_rest_forward(
                    tokens,
                    pos + 2,
                    ExprView::Get { object: Box::new(callee), name: tokens[pos + 1] },
                );
            }
        },
        _ => {},
    }
}

proof fn lemma_finish_call_forward(tokens: Seq<TokenView>, pos: int, callee: ExprView)
    requires
        0 <= pos <= tokens.len(),
    ensures
        forward(tokens, pos, finish_call_spec(tokens, pos, callee)),
    decreases tokens.len() - pos, 31nat,
{
    reveal(finish_call_spec);
    reveal(arguments_spec);
    if kind_at(tokens, pos) != TokenType::RightParen {
        lemma_arguments_forward(tokens, pos, Seq::empty());
    }
}

proof fn lemma_arguments_forward(tokens: Seq<TokenView>, pos: int, before: Seq<ExprView>)
    requires
        0 <= pos <= tokens.len(),
    ensures
        within(tokens, pos, arguments_spec(tokens, pos, before).pos),
    decreases tokens.len() - pos, 30nat,
{
    reveal(arguments_spec);
    reveal(expression_spec);
    if before.len() < MAX_ARGS_COUNT {
        lemma_expression_forward(tokens, pos);
        let first = expression_spec(tokens, pos);
        if first.result is Ok && kind_at(tokens, first.pos) == TokenType::Comma {
            lemma_arguments_forward(tokens, first.pos + 1, before.push(first.result->Ok_0));
        }
    }
}

proof fn lemma_primary_forward(tokens: Seq<TokenView>, pos: int)
    requires
        0 <= pos <= tokens.len(),
    ensures
        forward(tokens, pos, primary_spec(tokens, pos)),
    decreases tokens.len() - pos, 0nat,
{
    reveal(primary_spec);
    reveal(expression_spec);
    if kind_at(tokens, pos) == TokenType::LeftParen {
        lemma_expression_forward(tokens, pos + 1);
    }
}

/// What a rule for statements made of the tokens: where the next rule goes
/// on, the errors recorded so far, and the tree, or the error that stopped
/// the rule.
pub struct Stated<T> {
    pub pos: int,
    pub errors: Seq<ParseErrorView>,
    pub result: Result<T, ParseErrorView>,
}

/// The rule went through at `pos` and made `tree`.
pub open spec fn stated<T>(pos: int, errors: Seq<ParseErrorView>, tree: T) -> Stated<T> {
    Stated { pos, errors, result: Ok(tree) }
}

/// The rule stopped at the token at `pos` for the reason `msg`.
pub open spec fn refused<T>(
    tokens: Seq<TokenView>,
    pos: int,
    errors: Seq<ParseErrorView>,
    msg: Seq<char>,
) -> Stated<T> {
    Stated { pos, errors, result: Err(ParseErrorView { token: tokens[pos], msg }) }
}

/// The rule stopped with the error `error`.
pub open spec fn failed<T>(pos: int, errors: Seq<ParseErrorView>, error: ParseErrorView) -> Stated<T> {
    Stated { pos, errors, result: Err(error) }
}

/// Whether a token of the kind `typ` starts a statement.
pub open spec fn starts_statement(typ: TokenType) -> bool {
    typ == TokenType::Class || typ == TokenType::Fun || typ == TokenType::Var || typ
        == TokenType::For || typ == TokenType::If || typ == TokenType::While || typ
        == TokenType::Print || typ == TokenType::Return
}

/// The first position from `pos` on where a statement may start: after a
/// semicolon, at a keyword that starts a statement, or at the end.
pub open spec fn boundary(tokens: Seq<TokenView>, pos: int) -> int
    decreases tokens.len() - pos,
{
    if kind_at(tokens, pos) == TokenType::Eof {
        pos
    } else if pos >= 1 && kind_at(tokens, pos - 1) == TokenType::SemiColon {
        pos
    } else if starts_statement(kind_at(tokens, pos)) {
        pos
    } else {
        boundary(tokens, pos + 1)
    }
}

/// Where the parser goes on after an error at `pos`: it drops the token
/// there and all tokens up to the next place where a statement may start.
pub open spec fn synchronize_spec(tokens: Seq<TokenView>, pos: int) -> int {
    if kind_at(tokens, pos) == TokenType::Eof {
        pos
    } else {
        boundary(tokens, pos + 1)
    }
}

/// `true`, as the condition of a loop that states none.
pub open spec fn always() -> ExprView {
    ExprView::Literal { value: LiteralView::Boolean(true) }
}

/// The loop that a `for` statement stands for: the body, followed by the
/// increment, runs while the condition holds, after the initializer.
pub open spec fn for_loop(
    initializer: Option<StmtView>,
    condition: Option<ExprView>,
    increment: Option<ExprView>,
    body: StmtView,
) -> StmtView {
    let inner = match increment {
        Some(step) => StmtView::Block { statements: seq![body, StmtView::Expression(step)] },
        None => body,
    };
    let repeated = StmtView::While {
        condition: match condition {
            Some(test) => test,
            None => always(),
        },
        body: Box::new(inner),
    };
    match initializer {
        Some(first) => StmtView::Block { statements: seq![first, repeated] },
        None => repeated,
    }
}

/// exprStmt → expression ";"
pub open spec fn expr_statement_spec(tokens: Seq<TokenView>, pos: int, errors: Seq<ParseErrorView>) -> Stated<
    StmtView,
> {
    let value = expression_spec(tokens, pos);
    match value.result {
        Err(error) => failed(value.pos, errors, error),
        Ok(expr) => if kind_at(tokens, value.pos) == TokenType::SemiColon {
            stated(value.pos + 1, errors, StmtView::Expression(expr))
        } else {
            refused(tokens, value.pos, errors, "Expect ';' after expression."@)
        },
    }
}

/// printStmt → "print" expression ";"
pub open spec fn print_statement_spec(tokens: Seq<TokenView>, pos: int, errors: Seq<ParseErrorView>) -> Stated<
    StmtView,
> {
    let value = expression_spec(tokens, pos);
    match value.result {
        Err(error) => failed(value.pos, errors, error),
        Ok(expr) => if kind_at(tokens, value.pos) == TokenType::SemiColon {
            stated(value.pos + 1, errors, StmtView::Print(expr))
        } else {
            refused(tokens, value.pos, errors, "Expect ';' after value."@)
        },
    }
}

/// returnStmt → "return" expression? ";"
pub open spec fn return_statement_spec(
    tokens: Seq<TokenView>,
    pos: int,
    errors: Seq<ParseErrorView>,
    keyword: TokenView,
) -> Stated<StmtView> {
    if kind_at(tokens, pos) == TokenType::SemiColon {
        stated(pos + 1, errors, StmtView::Return { keyword, value_expr: None })
    } else {
        let value = expression_spec(tokens, pos);
        match value.result {
            Err(error) => failed(value.pos, errors, error),
            Ok(expr) => if kind_at(tokens, value.pos) == TokenType::SemiColon {
                stated(
                    value.pos + 1,
                    errors,
                    StmtView::Return { keyword, value_expr: Some(expr) },
                )
            } else {
                refused(tokens, value.pos, errors, "Expect ';' after return value."@)
            },
        }
    }
}

/// varDecl → "var" IDENTIFIER ( "=" expression )? ";"
pub open spec fn var_declaration_spec(tokens: Seq<TokenView>, pos: int, errors: Seq<ParseErrorView>) -> Stated<
    StmtView,
> {
    if kind_at(tokens, pos) != TokenType::Identifier {
        refused(tokens, pos, errors, "Expect variable name"@)
    } else if kind_at(tokens, pos + 1) == TokenType::Equal {
        let value = expression_spec(tokens, pos + 2);
        match value.result {
            Err(error) => failed(value.pos, errors, error),
            Ok(expr) => if kind_at(tokens, value.pos) == TokenType::SemiColon {
                stated(
                    value.pos + 1,
                    errors,
                    StmtView::Var { name: tokens[pos], initializer: Some(expr) },
                )
            } else {
                refused(tokens, value.pos, errors, "Expect ';' after variable declaration."@)
            },
        }
    } else if kind_at(tokens, pos + 1) == TokenType::SemiColon {
        stated(pos + 2, errors, StmtView::Var { name: tokens[pos], initializer: None })
    } else {
        refused(tokens, pos + 1, errors, "Expect ';' after variable declaration."@)
    }
}

/// The condition of a statement, in parentheses. `open` and `close` are the
/// messages for a missing "(" and a missing ")".
pub open spec fn condition_spec(tokens: Seq<TokenView>, pos: int, open: Seq<char>, close: Seq<char>) -> Parsed<
    ExprView,
> {
    if kind_at(tokens, pos) != TokenType::LeftParen {
        stopped(tokens, pos, open)
    } else {
        let test = expression_spec(tokens, pos + 1);
        match test.result {
            Err(_) => test,
            Ok(expr) => if kind_at(tokens, test.pos) == TokenType::RightParen {
                made(test.pos + 1, expr)
            } else {
                stopped(tokens, test.pos, close)
            },
        }
    }
}

/// The three clauses of a `for` statement, up to and with the ")".
pub struct Clauses {
    pub initializer: Option<StmtView>,
    pub condition: Option<ExprView>,
    pub increment: Option<ExprView>,
}

/// What follows the initializer of a `for` statement: the condition, ";",
/// the increment, ")".
pub open spec fn for_rest_spec(tokens: Seq<TokenView>, pos: int, initializer: Option<StmtView>) -> Parsed<
    Clauses,
> {
    let test = if kind_at(tokens, pos) == TokenType::SemiColon {
        made(pos, None)
    } else {
        let parsed = expression_spec(tokens, pos);
        Parsed {
            pos: parsed.pos,
            result: match parsed.result {
                Ok(expr) => Ok(Some(expr)),
                Err(error) => Err(error),
            },
        }
    };
    match test.result {
        Err(_) => passed(test),
        Ok(condition) => if kind_at(tokens, test.pos) != TokenType::SemiColon {
            stopped(tokens, test.pos, "Expect ';' after loop condition"@)
        } else {
            let step = if kind_at(tokens, test.pos + 1) == TokenType::RightParen {
                made(test.pos + 1, None)
            } else {
                let parsed = expression_spec(tokens, test.pos + 1);
                Parsed {
                    pos: parsed.pos,
                    result: match parsed.result {
                        Ok(expr) => Ok(Some(expr)),
                        Err(error) => Err(error),
                    },
                }
            };
            match step.result {
                Err(_) => passed(step),
                Ok(increment) => if kind_at(tokens, step.pos) != TokenType::RightParen {
                    stopped(tokens, step.pos, "Expect ')' after for cluase."@)
                } else {
                    made(step.pos + 1, Clauses { initializer, condition, increment })
                },
            }
        },
    }
}

/// The clauses of a `for` statement: "(", the initializer, and what
/// follows it.
pub open spec fn for_clauses_spec(tokens: Seq<TokenView>, pos: int, errors: Seq<ParseErrorView>) -> Parsed<
    Clauses,
> {
    if kind_at(tokens, pos) != TokenType::LeftParen {
        stopped(tokens, pos, "Expect '(' after for."@)
    } else if kind_at(tokens, pos + 1) == TokenType::SemiColon {
        for_rest_spec(tokens, pos + 2, None)
    } else {
        let first = if kind_at(tokens, pos + 1) == TokenType::Var {
            var_declaration_spec(tokens, pos + 2, errors)
        } else {
            expr_statement_spec(tokens, pos + 1, errors)
        };
        match first.result {
            Err(error) => Parsed { pos: first.pos, result: Err(error) },
            Ok(initializer) => for_rest_spec(tokens, first.pos, Some(initializer)),
        }
    }
}

/// The message for what a declaration of the kind `kind` misses:
/// `Expect <what> <kind> <rest>`.
pub open spec fn expect_message(what: Seq<char>, kind: Seq<char>, rest: Seq<char>) -> Seq<char> {
    "Expect "@ + what + kind + rest
}

/// parameters → IDENTIFIER ( "," IDENTIFIER )*
///
/// The parameters from `pos` on, after the parameters `before`.
pub open spec fn parameters_spec(tokens: Seq<TokenView>, pos: int, before: Seq<TokenView>) -> Parsed<
    Seq<TokenView>,
>
    decreases tokens.len() - pos,
{
    if before.len() > MAX_ARGS_COUNT {
        stopped(tokens, pos, "Can't have more than 255 arguments."@)
    } else if kind_at(tokens, pos) != TokenType::Identifier {
        stopped(tokens, pos, "Expect parameter name."@)
    } else if kind_at(tokens, pos + 1) == TokenType::Comma {
        parameters_spec(tokens, pos + 2, before.push(tokens[pos]))
    } else {
        made(pos + 1, before.push(tokens[pos]))
    }
}

/// What stands before the body of a function: its name and its parameters
/// in parentheses, and the "{" of the body.
pub struct Header {
    pub name: TokenView,
    pub params: Seq<TokenView>,
}

/// function → IDENTIFIER "(" parameters? ")" block, up to the "{".
pub open spec fn function_header_spec(tokens: Seq<TokenView>, pos: int, kind: Seq<char>) -> Parsed<Header> {
    if kind_at(tokens, pos) != TokenType::Identifier {
        stopped(tokens, pos, expect_message(""@, kind, " name."@))
    } else if kind_at(tokens, pos + 1) != TokenType::LeftParen {
        stopped(tokens, pos + 1, expect_message("'(' after "@, kind, " name."@))
    } else {
        let params = if kind_at(tokens, pos + 2) == TokenType::RightParen {
            made(pos + 2, Seq::empty())
        } else {
            parameters_spec(tokens, pos + 2, Seq::empty())
        };
        match params.result {
            Err(_) => passed(params),
            Ok(list) => if kind_at(tokens, params.pos) != TokenType::RightParen {
                stopped(tokens, params.pos, "Expect ')' after parameters"@)
            } else if kind_at(tokens, params.pos + 1) != TokenType::LeftBrace {
                stopped(tokens, params.pos + 1, expect_message("'{' before "@, kind, " body."@))
            } else {
                made(params.pos + 2, Header { name: tokens[pos], params: list })
            },
        }
    }
}

/// What stands before the methods of a class: its name, its superclass if
/// it names one, and "{".
pub struct ClassHeader {
    pub name: TokenView,
    pub super_class: Option<TokenView>,
}

/// classDecl → "class" IDENTIFIER ( "<" IDENTIFIER )? "{" function* "}",
/// from the name up to the "{".
pub open spec fn class_header_spec(tokens: Seq<TokenView>, pos: int) -> Parsed<ClassHeader> {
    if kind_at(tokens, pos) != TokenType::Identifier {
        stopped(tokens, pos, "Expect class name."@)
    } else if kind_at(tokens, pos + 1) == TokenType::Less {
        if kind_at(tokens, pos + 2) != TokenType::Identifier {
            stopped(tokens, pos + 2, "Expect superclass name."@)
        } else if kind_at(tokens, pos + 3) != TokenType::LeftBrace {
            stopped(tokens, pos + 3, "Expect '{' before class body."@)
        } else {
            made(pos + 4, ClassHeader { name: tokens[pos], super_class: Some(tokens[pos + 2]) })
        }
    } else if kind_at(tokens, pos + 1) != TokenType::LeftBrace {
        stopped(tokens, pos + 1, "Expect '{' before class body."@)
    } else {
        made(pos + 2, ClassHeader { name: tokens[pos], super_class: None })
    }
}

/// statement → exprStmt | forStmt | ifStmt | printStmt | returnStmt
///           | whileStmt | block
#[verifier::opaque]
pub open spec fn statement_spec(tokens: Seq<TokenView>, pos: int, errors: Seq<ParseErrorView>) -> Stated<
    StmtView,
>
    decreases tokens.len() - pos, 10nat,
{
    match kind_at(tokens, pos) {
        TokenType::For => for_statement_spec(tokens, pos + 1, errors),
        TokenType::If => if_statement_spec(tokens, pos + 1, errors),
        TokenType::Print => print_statement_spec(tokens, pos + 1, errors),
        TokenType::Return => return_statement_spec(tokens, pos + 1, errors, tokens[pos]),
        TokenType::While => while_statement_spec(tokens, pos + 1, errors),
        TokenType::LeftBrace => {
            let body = block_spec(tokens, pos + 1, errors, Seq::empty());
            match body.result {
                Err(error) => failed(body.pos, body.errors, error),
                Ok(statements) => stated(body.pos, body.errors, StmtView::Block { statements }),
            }
        },
        _ => expr_statement_spec(tokens, pos, errors),
    }
}

/// ifStmt → "if" "(" expression ")" statement ( "else" statement )?
#[verifier::opaque]
pub open spec fn if_statement_spec(tokens: Seq<TokenView>, pos: int, errors: Seq<ParseErrorView>) -> Stated<
    StmtView,
>
    decreases tokens.len() - pos, 5nat,
{
    let test = condition_spec(tokens, pos, "Expect '(' after 'if'"@, "Expect ')' after condition"@);
    match test.result {
        Err(error) => failed(test.pos, errors, error),
        Ok(condition) => if !within(tokens, pos + 1, test.pos) {
            failed(test.pos, errors, arbitrary())
        } else {
            let first = statement_spec(tokens, test.pos, errors);
            match first.result {
                Err(_) => first,
                Ok(then_branch) => if kind_at(tokens, first.pos) == TokenType::Else && within(
                    tokens,
                    pos,
                    first.pos,
                ) {
                    let second = statement_spec(tokens, first.pos + 1, first.errors);
                    match second.result {
                        Err(_) => second,
                        Ok(else_branch) => stated(
                            second.pos,
                            second.errors,
                            StmtView::If {
                                condition,
                                then_branch: Box::new(then_branch),
                                else_branch: Some(Box::new(else_branch)),
                            },
                        ),
                    }
                } else {
                    stated(
                        first.pos,
                        first.errors,
                        StmtView::If {
                            condition,
                            then_branch: Box::new(then_branch),
                            else_branch: None,
                        },
                    )
                },
            }
        },
    }
}

/// whileStmt → "while" "(" expression ")" statement
#[verifier::opaque]
pub open spec fn while_statement_spec(tokens: Seq<TokenView>, pos: int, errors: Seq<ParseErrorView>) -> Stated<
    StmtView,
>
    decreases tokens.len() - pos, 5nat,
{
    let test = condition_spec(tokens, pos, "Expect '(' after while."@, "Expect ')' after condition."@);
    match test.result {
        Err(error) => failed(test.pos, errors, error),
        Ok(condition) => if !within(tokens, pos + 1, test.pos) {
            failed(test.pos, errors, arbitrary())
        } else {
            let body = statement_spec(tokens, test.pos, errors);
            match body.result {
                Err(_) => body,
                Ok(statement) => stated(
                    body.pos,
                    body.errors,
                    StmtView::While { condition, body: Box::new(statement) },
                ),
            }
        },
    }
}

/// forStmt → "for" "(" ( varDecl | exprStmt | ";" ) expression? ";"
///           expression? ")" statement
///
/// A `for` statement makes the loop that it stands for.
#[verifier::opaque]
pub open spec fn for_statement_spec(tokens: Seq<TokenView>, pos: int, errors: Seq<ParseErrorView>) -> Stated<
    StmtView,
>
    decreases tokens.len() - pos, 5nat,
{
    let clauses = for_clauses_spec(tokens, pos, errors);
    match clauses.result {
        Err(error) => failed(clauses.pos, errors, error),
        Ok(parts) => if !within(tokens, pos + 1, clauses.pos) {
            failed(clauses.pos, errors, arbitrary())
        } else {
            let body = statement_spec(tokens, clauses.pos, errors);
            match body.result {
                Err(_) => body,
                Ok(statement) => stated(
                    body.pos,
                    body.errors,
                    for_loop(parts.initializer, parts.condition, parts.increment, statement),
                ),
            }
        },
    }
}

/// block → "{" declaration* "}"
///
/// The declarations from `pos` on, after the statements `before`, and the
/// "}". A declaration that fails leaves no statement.
#[verifier::opaque]
pub open spec fn block_spec(
    tokens: Seq<TokenView>,
    pos: int,
    errors: Seq<ParseErrorView>,
    before: Seq<StmtView>,
) -> Stated<Seq<StmtView>>
    decreases tokens.len() - pos, 12nat,
{
    if kind_at(tokens, pos) == TokenType::RightBrace {
        stated(pos + 1, errors, before)
    } else if kind_at(tokens, pos) == TokenType::Eof {
        refused(tokens, pos, errors, "Expect '}' after block."@)
    } else {
        let next = declaration_spec(tokens, pos, errors);
        if within(tokens, pos + 1, next.pos) {
            block_spec(
                tokens,
                next.pos,
                next.errors,
                match next.result {
                    Ok(statement) => before.push(statement),
                    Err(_) => before,
                },
            )
        } else {
            failed(next.pos, next.errors, arbitrary())
        }
    }
}

/// function → IDENTIFIER "(" parameters? ")" block
#[verifier::opaque]
pub open spec fn function_spec(
    tokens: Seq<TokenView>,
    pos: int,
    errors: Seq<ParseErrorView>,
    kind: Seq<char>,
) -> Stated<FuncDeclarationView>
    decreases tokens.len() - pos, 14nat,
{
    let header = function_header_spec(tokens, pos, kind);
    match header.result {
        Err(error) => failed(header.pos, errors, error),
        Ok(head) => if !within(tokens, pos + 1, header.pos) {
            failed(header.pos, errors, arbitrary())
        } else {
            let body = block_spec(tokens, header.pos, errors, Seq::empty());
            match body.result {
                Err(error) => failed(body.pos, body.errors, error),
                Ok(statements) => stated(
                    body.pos,
                    body.errors,
                    FuncDeclarationView { name: head.name, params: head.params, body: statements },
                ),
            }
        },
    }
}

/// The methods of a class from `pos` on, after the methods `before`, and
/// the "}".
#[verifier::opaque]
pub open spec fn methods_spec(
    tokens: Seq<TokenView>,
    pos: int,
    errors: Seq<ParseErrorView>,
    before: Seq<FuncDeclarationView>,
) -> Stated<Seq<FuncDeclarationView>>
    decreases tokens.len() - pos, 15nat,
{
    if kind_at(tokens, pos) == TokenType::RightBrace {
        stated(pos + 1, errors, before)
    } else if kind_at(tokens, pos) == TokenType::Eof {
        refused(tokens, pos, errors, "Expect '}' after class body."@)
    } else {
        let next = function_spec(tokens, pos, errors, "method"@);
        match next.result {
            Err(error) => failed(next.pos, next.errors, error),
            Ok(method) => if within(tokens, pos + 1, next.pos) {
                methods_spec(tokens, next.pos, next.errors, before.push(method))
            } else {
                failed(next.pos, next.errors, arbitrary())
            },
        }
    }
}

/// classDecl → "class" IDENTIFIER ( "<" IDENTIFIER )? "{" function* "}"
#[verifier::opaque]
pub open spec fn class_declaration_spec(tokens: Seq<TokenView>, pos: int, errors: Seq<ParseErrorView>) -> Stated<
    StmtView,
>
    decreases tokens.len() - pos, 16nat,
{
    let header = class_header_spec(tokens, pos);
    match header.result {
        Err(error) => failed(header.pos, errors, error),
        Ok(head) => if !within(tokens, pos + 1, header.pos) {
            failed(header.pos, errors, arbitrary())
        } else {
            let body = methods_spec(tokens, header.pos, errors, Seq::empty());
            match body.result {
                Err(error) => failed(body.pos, body.errors, error),
                Ok(methods) => stated(
                    body.pos,
                    body.errors,
                    StmtView::Class { name: head.name, super_class: head.super_class, methods },
                ),
            }
        },
    }
}

/// declaration → classDecl | funDecl | varDecl | statement
///
/// A declaration that fails is recorded with the errors, and the parser
/// goes on where the next statement may start.
#[verifier::opaque]
pub open spec fn declaration_spec(tokens: Seq<TokenView>, pos: int, errors: Seq<ParseErrorView>) -> Stated<
    StmtView,
>
    decreases tokens.len() - pos, 11nat,
{
    let inner = match kind_at(tokens, pos) {
        TokenType::Class => class_declaration_spec(tokens, pos + 1, errors),
        TokenType::Fun => {
            let function = function_spec(tokens, pos + 1, errors, "function"@);
            match function.result {
                Err(error) => failed(function.pos, function.errors, error),
                Ok(declaration) => stated(
                    function.pos,
                    function.errors,
                    StmtView::Function(declaration),
                ),
            }
        },
        TokenType::Var => var_declaration_spec(tokens, pos + 1, errors),
        _ => statement_spec(tokens, pos, errors),
    };
    match inner.result {
        Ok(_) => inner,
        Err(error) => failed(synchronize_spec(tokens, inner.pos), inner.errors.push(error), error),
    }
}

/// What parsing gives: the statements, and the errors of the declarations
/// that failed.
pub struct Program {
    pub statements: Seq<StmtView>,
    pub errors: Seq<ParseErrorView>,
}

/// program → declaration* EOF
///
/// The declarations from `pos` on, after the statements `before`.
pub open spec fn program_spec(
    tokens: Seq<TokenView>,
    pos: int,
    errors: Seq<ParseErrorView>,
    before: Seq<StmtView>,
) -> Program
    decreases tokens.len() - pos,
{
    if kind_at(tokens, pos) == TokenType::Eof {
        Program { statements: before, errors }
    } else {
        let next = declaration_spec(tokens, pos, errors);
        if within(tokens, pos + 1, next.pos) {
            program_spec(
                tokens,
                next.pos,
                next.errors,
                match next.result {
                    Ok(statement) => before.push(statement),
                    Err(_) => before,
                },
            )
        } else {
            Program { statements: before, errors: next.errors }
        }
    }
}

/// The statements and the errors of the tokens `tokens`.
pub open spec fn parse_spec(tokens: Seq<TokenView>) -> Program {
    program_spec(tokens, 0, Seq::empty(), Seq::empty())
}

/// The errors of `errors` as mathematical values.
pub open spec fn error_views(errors: Seq<ParseError>) -> Seq<ParseErrorView> {
    Seq::new(errors.len(), |i: int| errors[i]@)
}

/// What holds of where a rule for statements stops: inside the tokens, not
/// before `pos`, and after `pos` if the rule went through.
pub open spec fn onward<T>(tokens: Seq<TokenView>, pos: int, stated: Stated<T>) -> bool {
    within(tokens, pos, stated.pos) && (stated.result is Ok ==> stated.pos > pos)
}

proof fn lemma_boundary(tokens: Seq<TokenView>, pos: int)
    requires
        0 <= pos <= tokens.len(),
    ensures
        within(tokens, pos, boundary(tokens, pos)),
    decreases tokens.len() - pos,
{
    if kind_at(tokens, pos) != TokenType::Eof && !(pos >= 1 && kind_at(tokens, pos - 1)
        == TokenType::SemiColon) && !starts_statement(kind_at(tokens, pos)) {
        lemma_boundary(tokens, pos + 1);
    }
}

proof fn lemma_simple_onward(
    tokens: Seq<TokenView>,
    pos: int,
    errors: Seq<ParseErrorView>,
    keyword: TokenView,
)
    requires
        0 <= pos <= tokens.len(),
    ensures
        onward(tokens, pos, expr_statement_spec(tokens, pos, errors)),
        onward(tokens, pos, print_statement_spec(tokens, pos, errors)),
        onward(tokens, pos, return_statement_spec(tokens, pos, errors, keyword)),
        onward(tokens, pos, var_declaration_spec(tokens, pos, errors)),
{
    lemma_expression_forward(tokens, pos);
    if kind_at(tokens, pos) == TokenType::Identifier && kind_at(tokens, pos + 1)
        == TokenType::Equal {
        lemma_expression_forward(tokens, pos + 2);
    }
}

proof fn lemma_condition_forward(tokens: Seq<TokenView>, pos: int, open: Seq<char>, close: Seq<char>)
    requires
        0 <= pos <= tokens.len(),
    ensures
        forward(tokens, pos, condition_spec(tokens, pos, open, close)),
{
    if kind_at(tokens, pos) == TokenType::LeftParen {
        lemma_expression_forward(tokens, pos + 1);
    }
}

proof fn lemma_for_rest_forward(tokens: Seq<TokenView>, pos: int, initializer: Option<StmtView>)
    requires
        0 <= pos <= tokens.len(),
    ensures
        forward(tokens, pos, for_rest_spec(tokens, pos, initializer)),
{
    lemma_expression_forward(tokens, pos);
    let test = if kind_at(tokens, pos) == TokenType::SemiColon {
        pos
    } else {
        expression_spec(tokens, pos).pos
    };
    if kind_at(tokens, test) == TokenType::SemiColon {
        lemma_expression_forward(tokens, test + 1);
    }
}

proof fn lemma_for_clauses_forward(tokens: Seq<TokenView>, pos: int, errors: Seq<ParseErrorView>)
    requires
        0 <= pos <= tokens.len(),
    ensures
        forward(tokens, pos, for_clauses_spec(tokens, pos, errors)),
{
    if kind_at(tokens, pos) == TokenType::LeftParen {
        if kind_at(tokens, pos + 1) == TokenType::SemiColon {
            lemma_for_rest_forward(tokens, pos + 2, None);
        } else {
            let first = if kind_at(tokens, pos + 1) == TokenType::Var {
                lemma_simple_onward(tokens, pos + 2, errors, tokens[pos]);
                var_declaration_spec(tokens, pos + 2, errors)
            } else {
                lemma_simple_onward(tokens, pos + 1, errors, tokens[pos]);
                expr_statement_spec(tokens, pos + 1, errors)
            };
            if first.result is Ok {
                lemma_for_rest_forward(tokens, first.pos, Some(first.result->Ok_0));
            }
        }
    }
}

proof fn lemma_parameters_forward(tokens: Seq<TokenView>, pos: int, before: Seq<TokenView>)
    requires
        0 <= pos <= tokens.len(),
    ensures
        forward(tokens, pos, parameters_spec(tokens, pos, before)),
    decreases tokens.len() - pos,
{
    if before.len() <= MAX_ARGS_COUNT && kind_at(tokens, pos) == TokenType::Identifier && kind_at(
        tokens,
        pos + 1,
    ) == TokenType::Comma {
        lemma_parameters_forward(tokens, pos + 2, before.push(tokens[pos]));
    }
}

proof fn lemma_headers_forward(tokens: Seq<TokenView>, pos: int, kind: Seq<char>)
    requires
        0 <= pos <= tokens.len(),
    ensures
        forward(tokens, pos, function_header_spec(tokens, pos, kind)),
        forward(tokens, pos, class_header_spec(tokens, pos)),
{
    if kind_at(tokens, pos) == TokenType::Identifier && kind_at(tokens, pos + 1)
        == TokenType::LeftParen {
        lemma_parameters_forward(tokens, pos + 2, Seq::empty());
    }
}

/// The rules for statements only ever move forward inside the tokens. A
/// declaration that does not stand at the end of the input moves on by at
/// least one token, also when it fails: so parsing ends.
pub proof fn lemma_declaration_onward(tokens: Seq<TokenView>, pos: int, errors: Seq<ParseErrorView>)
    requires
        0 <= pos <= tokens.len(),
    ensures
        within(tokens, pos, declaration_spec(tokens, pos, errors).pos),
        kind_at(tokens, pos) != TokenType::Eof ==> declaration_spec(tokens, pos, errors).pos > pos,
    decreases tokens.len() - pos, 11nat,
{
    reveal(declaration_spec);
    reveal(class_declaration_spec);
    reveal(function_spec);
    reveal(statement_spec);
    let inner = match kind_at(tokens, pos) {
        TokenType::Class => {
            lemma_class_onward(tokens, pos + 1, errors);
            class_declaration_spec(tokens, pos + 1, errors).pos
        },
        TokenType::Fun => {
            lemma_function_onward(tokens, pos + 1, errors, "function"@);
            function_spec(tokens, pos + 1, errors, "function"@).pos
        },
        TokenType::Var => {
            lemma_simple_onward(tokens, pos + 1, errors, tokens[pos]);
            var_declaration_spec(tokens, pos + 1, errors).pos
        },
        _ => {
            lemma_statement_onward(tokens, pos, errors);
            statement_spec(tokens, pos, errors).pos
        },
    };
    if inner < tokens.len() {
        lemma_boundary(tokens, inner + 1);
    }
}

proof fn lemma_statement_onward(tokens: Seq<TokenView>, pos: int, errors: Seq<ParseErrorView>)
    requires
        0 <= pos <= tokens.len(),
    ensures
        onward(tokens, pos, statement_spec(tokens, pos, errors)),
    decreases tokens.len() - pos, 10nat,
{
    reveal(statement_spec);
    reveal(for_statement_spec);
    reveal(if_statement_spec);
    reveal(while_statement_spec);
    reveal(block_spec);
    match kind_at(tokens, pos) {
        TokenType::For => {
            lemma_control_onward(tokens, pos + 1, errors);
        },
        TokenType::If => {
            lemma_control_onward(tokens, pos + 1, errors);
        },
        TokenType::Print => {
            lemma_simple_onward(tokens, pos + 1, errors, tokens[pos]);
        },
        TokenType::Return => {
            lemma_simple_onward(tokens, pos + 1, errors, tokens[pos]);
        },
        TokenType::While => {
            lemma_control_onward(tokens, pos + 1, errors);
        },
        TokenType::LeftBrace => {
            lemma_block_onward(tokens, pos + 1, errors, Seq::empty());
        },
        _ => {
            lemma_simple_onward(tokens, pos, errors, tokens[pos]);
        },
    }
}

proof fn lemma_control_onward(tokens: Seq<TokenView>, pos: int, errors: Seq<ParseErrorView>)
    requires
        0 <= pos <= tokens.len(),
    ensures
        onward(tokens, pos, if_statement_spec(tokens, pos, errors)),
        onward(tokens, pos, while_statement_spec(tokens, pos, errors)),
        onward(tokens, pos, for_statement_spec(tokens, pos, errors)),
    decreases tokens.len() - pos, 5nat,
{
    reveal(if_statement_spec);
    reveal(while_statement_spec);
    reveal(for_statement_spec);
    reveal(statement_spec);
    lemma_condition_forward(tokens, pos, "Expect '(' after 'if'"@, "Expect ')' after condition"@);
    let test = condition_spec(tokens, pos, "Expect '(' after 'if'"@, "Expect ')' after condition"@);
    if test.result is Ok {
        lemma_statement_onward(tokens, test.pos, errors);
        let first = statement_spec(tokens, test.pos, errors);
        if first.result is Ok && kind_at(tokens, first.pos) == TokenType::Else {
            lemma_statement_onward(tokens, first.pos + 1, first.errors);
        }
    }
    lemma_condition_forward(tokens, pos, "Expect '(' after while."@, "Expect ')' after condition."@);
    let test = condition_spec(
        tokens,
        pos,
        "Expect '(' after while."@,
        "Expect ')' after condition."@,
    );
    if test.result is Ok {
        lemma_statement_onward(tokens, test.pos, errors);
    }
    lemma_for_clauses_forward(tokens, pos, errors);
    let clauses = for_clauses_spec(tokens, pos, errors);
    if clauses.result is Ok {
        lemma_statement_onward(tokens, clauses.pos, errors);
    }
}

proof fn lemma_block_onward(
    tokens: Seq<TokenView>,
    pos: int,
    errors: Seq<ParseErrorView>,
    before: Seq<StmtView>,
)
    requires
        0 <= pos <= tokens.len(),
    ensures
        onward(tokens, pos, block_spec(tokens, pos, errors, before)),
    decreases tokens.len() - pos, 12nat,
{
    reveal(block_spec);
    reveal(declaration_spec);
    if kind_at(tokens, pos) != TokenType::RightBrace && kind_at(tokens, pos) != TokenType::Eof {
        lemma_declaration_onward(tokens, pos, errors);
        let next = declaration_spec(tokens, pos, errors);
        lemma_block_onward(
            tokens,
            next.pos,
            next.errors,
            match next.result {
                Ok(statement) => before.push(statement),
                Err(_) => before,
            },
        );
    }
}

proof fn lemma_function_onward(
    tokens: Seq<TokenView>,
    pos: int,
    errors: Seq<ParseErrorView>,
    kind: Seq<char>,
)
    requires
        0 <= pos <= tokens.len(),
    ensures
        onward(tokens, pos, function_spec(tokens, pos, errors, kind)),
    decreases tokens.len() - pos, 14nat,
{
    reveal(function_spec);
    reveal(block_spec);
    lemma_headers_forward(tokens, pos, kind);
    let header = function_header_spec(tokens, pos, kind);
    if header.result is Ok {
        lemma_block_onward(tokens, header.pos, errors, Seq::empty());
    }
}

proof fn lemma_methods_onward(
    tokens: Seq<TokenView>,
    pos: int,
    errors: Seq<ParseErrorView>,
    before: Seq<FuncDeclarationView>,
)
    requires
        0 <= pos <= tokens.len(),
    ensures
        onward(tokens, pos, methods_spec(tokens, pos, errors, before)),
    decreases tokens.len() - pos, 15nat,
{
    reveal(methods_spec);
    reveal(function_spec);
    if kind_at(tokens, pos) != TokenType::RightBrace && kind_at(tokens, pos) != TokenType::Eof {
        lemma_function_onward(tokens, pos, errors, "method"@);
        let next = function_spec(tokens, pos, errors, "method"@);
        if next.result is Ok {
            lemma_methods_onward(tokens, next.pos, next.errors, before.push(next.result->Ok_0));
        }
    }
}

proof fn lemma_class_onward(tokens: Seq<TokenView>, pos: int, errors: Seq<ParseErrorView>)
    requires
        0 <= pos <= tokens.len(),
    ensures
        onward(tokens, pos, class_declaration_spec(tokens, pos, errors)),
    decreases tokens.len() - pos, 16nat,
{
    reveal(class_declaration_spec);
    reveal(methods_spec);
    lemma_headers_forward(tokens, pos, ""@);
    let header = class_header_spec(tokens, pos);
    if header.result is Ok {
        lemma_methods_onward(tokens, header.pos, errors, Seq::empty());
    }
}

/// What parsing gives: the statements, and the errors of the declarations
/// that failed.
#[derive(Debug)]
pub struct ParseResults {
    pub statements: Vec<Stmt>,
    pub errors: Vec<ParseError>,
}

/// The parser: the tokens, and the place of the next one to read.
#[derive(Debug)]
pub struct Parser {
    pub tokens: Vec<Token>,
    pub current: usize,
    pub errors: Vec<ParseError>,
}

/// What a parsing method promises: it stops where `expected` says, with
/// the tree or the error that `expected` says, and never before where it
/// started.
pub open spec fn parsed_as(
    before: Parser,
    after: Parser,
    result: Result<Expr, ParseError>,
    expected: Parsed<ExprView>,
) -> bool {
    &&& after.wf()
    &&& after.tokens == before.tokens
    &&& after.errors == before.errors
    &&& after.current == expected.pos
    &&& after.current >= before.current
    &&& match result {
        Ok(expr) => expected.result == Ok::<ExprView, ParseErrorView>(expr@) && after.current
            > before.current,
        Err(error) => expected.result == Err::<ExprView, ParseErrorView>(error@),
    }
}

/// What a method for statements promises of the parser: it stops at
/// `pos`, never before where it started, and has recorded `errors`.
pub open spec fn moved(before: Parser, after: Parser, pos: int, errors: Seq<ParseErrorView>) -> bool {
    &&& after.wf()
    &&& after.tokens == before.tokens
    &&& after.current == pos
    &&& after.current >= before.current
    &&& error_views(after.errors@) == errors
}

/// What a method that makes a statement promises: it stops where
/// `expected` says, with the errors, and the statement or the error, that
/// `expected` says.
pub open spec fn stated_as(
    before: Parser,
    after: Parser,
    result: Result<Stmt, ParseError>,
    expected: Stated<StmtView>,
) -> bool {
    &&& moved(before, after, expected.pos, expected.errors)
    &&& match result {
        Ok(stmt) => expected.result == Ok::<StmtView, ParseErrorView>(stmt@) && after.current
            > before.current,
        Err(error) => expected.result == Err::<StmtView, ParseErrorView>(error@),
    }
}

impl Parser {
    /// The tokens as mathematical values.
    pub open spec fn views(&self) -> Seq<TokenView> {
        token_views(self.tokens@)
    }

    /// The tokens end with the end of the input, and the next token to read
    /// is one of them.
    pub open spec fn wf(&self) -> bool {
        &&& self.tokens.len() > 0
        &&& self.tokens@.last().typ == TokenType::Eof
        &&& self.current < self.tokens.len()
    }

    /// A parser at the start of `tokens`, which end with the end of the
    /// input.
    pub fn new(tokens: Vec<Token>) -> (parser: Parser)
        requires
            tokens@.len() > 0,
            tokens@.last().typ == TokenType::Eof,
        ensures
            parser.wf(),
            parser.tokens == tokens,
            parser.current == 0,
            parser.errors@.len() == 0,
    {
        Parser { tokens, current: 0, errors: Vec::new() }
    }

    /// Parses the tokens from the next one on to the end of the input.
    /// Gives the statements of the declarations that went through, and the
    /// errors of those that did not.
    pub fn parse(&mut self) -> (results: ParseResults)
        requires
            old(self).wf(),
        ensures
            final(self).wf(),
            final(self).tokens == old(self).tokens,
            final(self).errors@.len() == 0,
            kind_at(final(self).views(), final(self).current as int) == TokenType::Eof,
            stmts_view(results.statements) == program_spec(
                old(self).views(),
                old(self).current as int,
                error_views(old(self).errors@),
                Seq::empty(),
            ).statements,
            error_views(results.errors@) == program_spec(
                old(self).views(),
                old(self).current as int,
                error_views(old(self).errors@),
                Seq::empty(),
            ).errors,
    {
        let mut stmts: Vec<Stmt> = Vec::new();
        assert(stmts_view(stmts) =~= Seq::empty());
        while !self.at_end()
            invariant
                self.wf(),
                self.tokens == old(self).tokens,
                program_spec(
                    old(self).views(),
                    old(self).current as int,
                    error_views(old(self).errors@),
                    Seq::empty(),
                ) == program_spec(
                    self.views(),
                    self.current as int,
                    error_views(self.errors@),
                    stmts_view(stmts),
                ),
            decreases self.tokens@.len() - self.current,
        {
            let ghost before = stmts_view(stmts);
            match self.declaration() {
                Some(stmt) => {
                    stmts.push(stmt);
                    assert(stmts_view(stmts) =~= before.push(stmt@));
                },
                None => {},
            }
        }
        let mut errors: Vec<ParseError> = Vec::new();
        std::mem::swap(&mut errors, &mut self.errors);
        ParseResults { statements: stmts, errors }
    }

    /// declaration → classDecl | funDecl | varDecl | statement
    ///
    /// Gives the statement, or records the error and goes on where the next
    /// statement may start.
    fn declaration(&mut self) -> (result: Option<Stmt>)
        requires
            old(self).wf(),
        ensures
            moved(
                *old(self),
                *final(self),
                declaration_spec(
                    old(self).views(),
                    old(self).current as int,
                    error_views(old(self).errors@),
                ).pos,
                declaration_spec(
                    old(self).views(),
                    old(self).current as int,
                    error_views(old(self).errors@),
                ).errors,
            ),
            match result {
                Some(stmt) => declaration_spec(
                    old(self).views(),
                    old(self).current as int,
                    error_views(old(self).errors@),
                ).result == Ok::<StmtView, ParseErrorView>(stmt@),
                None => declaration_spec(
                    old(self).views(),
                    old(self).current as int,
                    error_views(old(self).errors@),
                ).result is Err,
            },
            kind_at(old(self).views(), old(self).current as int) != TokenType::Eof ==> final(self).current > old(self).current,
        decreases old(self).tokens@.len() - old(self).current, 11nat,
    {
        proof {
            reveal(declaration_spec);
            reveal(class_declaration_spec);
            reveal(function_spec);
            reveal(statement_spec);
        }
        let res = if self.match_then_consume(TokenType::Class) {
            self.class_declaration()
        } else if self.match_then_consume(TokenType::Fun) {
            match self.function_declaration("function") {
                Err(e) => Err(e),
                Ok(declaration) => Ok(Stmt::Function(Rc::new(declaration))),
            }
        } else if self.match_then_consume(TokenType::Var) {
            self.var_declaration()
        } else {
            self.statement()
        };
        match res {
            Ok(stmt) => Some(stmt),
            Err(err) => {
                let ghost before = error_views(self.errors@);
                let ghost error = err@;
                self.errors.push(err);
                assert(error_views(self.errors@) =~= before.push(error));
                self.synchronize();
                None
            },
        }
    }

    /// classDecl → "class" IDENTIFIER ( "<" IDENTIFIER )? "{" function* "}"
    fn class_declaration(&mut self) -> (result: Result<Stmt, ParseError>)
        requires
            old(self).wf(),
        ensures
            stated_as(
                *old(self),
                *final(self),
                result,
                class_declaration_spec(
                    old(self).views(),
                    old(self).current as int,
                    error_views(old(self).errors@),
                ),
            ),
        decreases old(self).tokens@.len() - old(self).current, 16nat,
    {
        proof {
            reveal(class_declaration_spec);
            reveal(methods_spec);
            reveal(function_spec);
        }
        let name = match self.consume_identifier("Expect class name.") {
            Err(e) => {
                return Err(e);
            },
            Ok(name) => name,
        };
        let super_class = if self.match_then_consume(TokenType::Less) {
            match self.consume_identifier("Expect superclass name.") {
                Err(e) => {
                    return Err(e);
                },
                Ok(parent) => Some(parent),
            }
        } else {
            None
        };
        match self.consume(TokenType::LeftBrace, "Expect '{' before class body.") {
            Err(e) => {
                return Err(e);
            },
            Ok(_) => {},
        }
        let ghost start = self.current as int;
        let ghost recorded = error_views(self.errors@);
        let ghost header = class_header_spec(old(self).views(), old(self).current as int);
        let mut methods: Vec<Rc<FuncDeclaration>> = Vec::new();
        assert(methods_view(methods) =~= Seq::empty());
        while !self.check(TokenType::RightBrace) && !self.at_end()
            invariant
                self.wf(),
                self.tokens == old(self).tokens,
                self.current >= start > old(self).current,
                recorded == error_views(old(self).errors@),
                header == class_header_spec(old(self).views(), old(self).current as int),
                header.result is Ok,
                header.pos == start,
                methods_spec(old(self).views(), start, recorded, Seq::empty()) == methods_spec(
                    self.views(),
                    self.current as int,
                    error_views(self.errors@),
                    methods_view(methods),
                ),
            decreases self.tokens@.len() - self.current,
        {
            proof {
                reveal(class_declaration_spec);
                reveal(methods_spec);
                reveal(function_spec);
            }
            let ghost before = methods_view(methods);
            match self.function_declaration("method") {
                Err(e) => {
                    return Err(e);
                },
                Ok(method) => {
                    methods.push(Rc::new(method));
                    assert(methods_view(methods) =~= before.push(method@));
                },
            }
        }
        match self.consume(TokenType::RightBrace, "Expect '}' after class body.") {
            Err(e) => {
                return Err(e);
            },
            Ok(_) => {},
        }
        let class = Stmt::Class { name, super_class, methods };
        assert(class@ == (StmtView::Class {
            name: name@,
            super_class: match super_class {
                Some(parent) => Some(parent@),
                None => None,
            },
            methods: methods_view(methods),
        })) by {
            assert(class@->Class_methods =~= methods_view(methods));
        }
        Ok(class)
    }

    /// The message for what a declaration of the kind `kind` misses.
    fn expect_text(what: &str, kind: &str, rest: &str) -> (text: String)
        ensures
            text@ == expect_message(what@, kind@, rest@),
    {
        let mut text = String::from_str("Expect ");
        text.append(what);
        text.append(kind);
        text.append(rest);
        text
    }

    /// function → IDENTIFIER "(" parameters? ")" block
    ///
    /// `kind` says what is declared: a function or a method.
    fn function_declaration(&mut self, kind: &str) -> (result: Result<FuncDeclaration, ParseError>)
        requires
            old(self).wf(),
        ensures
            moved(
                *old(self),
                *final(self),
                function_spec(
                    old(self).views(),
                    old(self).current as int,
                    error_views(old(self).errors@),
                    kind@,
                ).pos,
                function_spec(
                    old(self).views(),
                    old(self).current as int,
                    error_views(old(self).errors@),
                    kind@,
                ).errors,
            ),
            match result {
                Ok(declaration) => function_spec(
                    old(self).views(),
                    old(self).current as int,
                    error_views(old(self).errors@),
                    kind@,
                ).result == Ok::<FuncDeclarationView, ParseErrorView>(declaration@) && final(self).current > old(self).current,
                Err(error) => function_spec(
                    old(self).views(),
                    old(self).current as int,
                    error_views(old(self).errors@),
                    kind@,
                ).result == Err::<FuncDeclarationView, ParseErrorView>(error@),
            },
        decreases old(self).tokens@.len() - old(self).current, 14nat,
    {
        proof {
            reveal(function_spec);
            reveal(block_spec);
        }
        // The name.
        let message = Self::expect_text("", kind, " name.");
        let name = match self.consume_identifier(message.as_str()) {
            Err(e) => {
                return Err(e);
            },
            Ok(name) => name,
        };
        let message = Self::expect_text("'(' after ", kind, " name.");
        match self.consume(TokenType::LeftParen, message.as_str()) {
            Err(e) => {
                return Err(e);
            },
            Ok(_) => {},
        }
        // The parameters.
        let ghost start = self.current as int;
        let mut params: Vec<Token> = Vec::new();
        assert(token_views(params@) =~= Seq::empty());
        if !self.check(TokenType::RightParen) {
            loop
                invariant_except_break
                    self.wf(),
                    self.tokens == old(self).tokens,
                    self.errors == old(self).errors,
                    self.current >= start,
                    start == old(self).current + 2,
                    kind_at(old(self).views(), old(self).current as int) == TokenType::Identifier,
                    kind_at(old(self).views(), old(self).current + 1) == TokenType::LeftParen,
                    kind_at(old(self).views(), start) != TokenType::RightParen,
                    parameters_spec(old(self).views(), start, Seq::empty()) == parameters_spec(
                        self.views(),
                        self.current as int,
                        token_views(params@),
                    ),
                ensures
                    self.wf(),
                    self.tokens == old(self).tokens,
                    self.errors == old(self).errors,
                    self.current >= start,
                    parameters_spec(old(self).views(), start, Seq::empty()) == made(
                        self.current as int,
                        token_views(params@),
                    ),
                decreases self.tokens@.len() - self.current,
            {
                proof {
                    reveal(function_spec);
                }
                if params.len() > MAX_ARGS_COUNT {
                    return Err(
                        ParseError::new(
                            self.peek().clone(),
                            String::from_str("Can't have more than 255 arguments."),
                        ),
                    );
                }
                let ghost before = token_views(params@);
                let param = match self.consume_identifier("Expect parameter name.") {
                    Err(e) => {
                        return Err(e);
                    },
                    Ok(param) => param,
                };
                params.push(param);
                assert(token_views(params@) =~= before.push(param@));
                if !self.match_then_consume(TokenType::Comma) {
                    break;
                }
            }
        }
        match self.consume(TokenType::RightParen, "Expect ')' after parameters") {
            Err(e) => {
                return Err(e);
            },
            Ok(_) => {},
        }
        // The body.
        let message = Self::expect_text("'{' before ", kind, " body.");
        match self.consume(TokenType::LeftBrace, message.as_str()) {
            Err(e) => {
                return Err(e);
            },
            Ok(_) => {},
        }
        let body = match self.block() {
            Err(e) => {
                return Err(e);
            },
            Ok(body) => body,
        };
        Ok(FuncDeclaration::new(name, params, body))
    }

    /// varDecl → "var" IDENTIFIER ( "=" expression )? ";"
    fn var_declaration(&mut self) -> (result: Result<Stmt, ParseError>)
        requires
            old(self).wf(),
        ensures
            stated_as(
                *old(self),
                *final(self),
                result,
                var_declaration_spec(
                    old(self).views(),
                    old(self).current as int,
                    error_views(old(self).errors@),
                ),
            ),
    {
        let name = match self.consume_identifier("Expect variable name") {
            Err(e) => {
                return Err(e);
            },
            Ok(name) => name,
        };
        let initializer = if self.match_then_consume(TokenType::Equal) {
            match self.expression() {
                Err(e) => {
                    return Err(e);
                },
                Ok(expr) => Some(expr),
            }
        } else {
            None
        };
        match self.consume(TokenType::SemiColon, "Expect ';' after variable declaration.") {
            Err(e) => {
                return Err(e);
            },
            Ok(_) => {},
        }
        Ok(Stmt::Var { name, initializer })
    }

    /// statement → exprStmt | forStmt | ifStmt | printStmt | returnStmt
    ///           | whileStmt | block
    fn statement(&mut self) -> (result: Result<Stmt, ParseError>)
        requires
            old(self).wf(),
        ensures
            stated_as(
                *old(self),
                *final(self),
                result,
                statement_spec(
                    old(self).views(),
                    old(self).current as int,
                    error_views(old(self).errors@),
                ),
            ),
        decreases old(self).tokens@.len() - old(self).current, 10nat,
    {
        proof {
            reveal(statement_spec);
            reveal(for_statement_spec);
            reveal(if_statement_spec);
            reveal(while_statement_spec);
            reveal(block_spec);
        }
        if self.match_then_consume(TokenType::For) {
            return self.for_statement();
        }
        if self.match_then_consume(TokenType::If) {
            return self.if_statement();
        }
        if self.match_then_consume(TokenType::Print) {
            return self.print_statement();
        }
        if self.check(TokenType::Return) {
            let keyword = self.peek().clone();
            self.advance();
            return self.return_statement(keyword);
        }
        if self.match_then_consume(TokenType::While) {
            return self.while_statement();
        }
        if self.match_then_consume(TokenType::LeftBrace) {
            return match self.block() {
                Err(e) => Err(e),
                Ok(statements) => Ok(Stmt::Block { statements }),
            };
        }
        self.expr_statement()
    }

    /// A condition in parentheses. `open` and `close` are the messages for
    /// a missing "(" and a missing ")".
    fn condition(&mut self, open: &str, close: &str) -> (result: Result<Expr, ParseError>)
        requires
            old(self).wf(),
        ensures
            parsed_as(
                *old(self),
                *final(self),
                result,
                condition_spec(old(self).views(), old(self).current as int, open@, close@),
            ),
    {
        match self.consume(TokenType::LeftParen, open) {
            Err(e) => {
                return Err(e);
            },
            Ok(_) => {},
        }
        let condition = match self.expression() {
            Err(e) => {
                return Err(e);
            },
            Ok(expr) => expr,
        };
        match self.consume(TokenType::RightParen, close) {
            Err(e) => {
                return Err(e);
            },
            Ok(_) => {},
        }
        Ok(condition)
    }

    /// ifStmt → "if" "(" expression ")" statement ( "else" statement )?
    fn if_statement(&mut self) -> (result: Result<Stmt, ParseError>)
        requires
            old(self).wf(),
        ensures
            stated_as(
                *old(self),
                *final(self),
                result,
                if_statement_spec(
                    old(self).views(),
                    old(self).current as int,
                    error_views(old(self).errors@),
                ),
            ),
        decreases old(self).tokens@.len() - old(self).current, 5nat,
    {
        proof {
            reveal(if_statement_spec);
            reveal(statement_spec);
        }
        let condition = match self.condition("Expect '(' after 'if'", "Expect ')' after condition") {
            Err(e) => {
                return Err(e);
            },
            Ok(expr) => expr,
        };
        let then_branch = match self.statement() {
            Err(e) => {
                return Err(e);
            },
            Ok(stmt) => Box::new(stmt),
        };
        let else_branch = if self.match_then_consume(TokenType::Else) {
            match self.statement() {
                Err(e) => {
                    return Err(e);
                },
                Ok(stmt) => Some(Box::new(stmt)),
            }
        } else {
            None
        };
        Ok(Stmt::If { condition, then_branch, else_branch })
    }

    /// What follows the initializer of a `for` statement: the condition,
    /// ";", the increment, ")".
    fn for_rest(&mut self) -> (result: Result<(Option<Expr>, Option<Expr>), ParseError>)
        requires
            old(self).wf(),
        ensures
            final(self).wf(),
            final(self).tokens == old(self).tokens,
            final(self).errors == old(self).errors,
            final(self).current >= old(self).current,
            forall|initializer: Option<StmtView>|
                {
                    let expected = #[trigger] for_rest_spec(
                        old(self).views(),
                        old(self).current as int,
                        initializer,
                    );
                    &&& final(self).current == expected.pos
                    &&& match result {
                        Ok((condition, increment)) => expected.result == Ok::<
                            Clauses,
                            ParseErrorView,
                        >(
                            Clauses {
                                initializer,
                                condition: crate::ast::statement::optional_view(condition),
                                increment: crate::ast::statement::optional_view(increment),
                            },
                        ) && final(self).current > old(self).current,
                        Err(error) => expected.result == Err::<Clauses, ParseErrorView>(error@),
                    }
                },
    {
        let condition = if !self.check(TokenType::SemiColon) {
            match self.expression() {
                Err(e) => {
                    return Err(e);
                },
                Ok(expr) => Some(expr),
            }
        } else {
            None
        };
        match self.consume(TokenType::SemiColon, "Expect ';' after loop condition") {
            Err(e) => {
                return Err(e);
            },
            Ok(_) => {},
        }
        let increment = if !self.check(TokenType::RightParen) {
            match self.expression() {
                Err(e) => {
                    return Err(e);
                },
                Ok(expr) => Some(expr),
            }
        } else {
            None
        };
        match self.consume(TokenType::RightParen, "Expect ')' after for cluase.") {
            Err(e) => {
                return Err(e);
            },
            Ok(_) => {},
        }
        Ok((condition, increment))
    }

    /// The clauses of a `for` statement: "(", the initializer, the
    /// condition, ";", the increment, ")".
    fn for_clauses(&mut self) -> (result: Result<
        (Option<Stmt>, Option<Expr>, Option<Expr>),
        ParseError,
    >)
        requires
            old(self).wf(),
        ensures
            final(self).wf(),
            final(self).tokens == old(self).tokens,
            error_views(final(self).errors@) == error_views(old(self).errors@),
            final(self).current >= old(self).current,
            final(self).current == for_clauses_spec(
                old(self).views(),
                old(self).current as int,
                error_views(old(self).errors@),
            ).pos,
            match result {
                Ok((initializer, condition, increment)) => for_clauses_spec(
                    old(self).views(),
                    old(self).current as int,
                    error_views(old(self).errors@),
                ).result == Ok::<Clauses, ParseErrorView>(
                    Clauses {
                        initializer: optional_statement(initializer),
                        condition: crate::ast::statement::optional_view(condition),
                        increment: crate::ast::statement::optional_view(increment),
                    },
                ) && final(self).current > old(self).current,
                Err(error) => for_clauses_spec(
                    old(self).views(),
                    old(self).current as int,
                    error_views(old(self).errors@),
                ).result == Err::<Clauses, ParseErrorView>(error@),
            },
    {
        match self.consume(TokenType::LeftParen, "Expect '(' after for.") {
            Err(e) => {
                return Err(e);
            },
            Ok(_) => {},
        }
        let initializer = if self.match_then_consume(TokenType::SemiColon) {
            None
        } else if self.match_then_consume(TokenType::Var) {
            match self.var_declaration() {
                Err(e) => {
                    return Err(e);
                },
                Ok(stmt) => Some(stmt),
            }
        } else {
            match self.expr_statement() {
                Err(e) => {
                    return Err(e);
                },
                Ok(stmt) => Some(stmt),
            }
        };
        match self.for_rest() {
            Err(e) => Err(e),
            Ok((condition, increment)) => Ok((initializer, condition, increment)),
        }
    }

    /// The block of two statements.
    fn pair(first: Stmt, second: Stmt) -> (block: Stmt)
        ensures
            block@ == (StmtView::Block { statements: seq![first@, second@] }),
    {
        let mut statements: Vec<Stmt> = Vec::new();
        statements.push(first);
        statements.push(second);
        assert(stmts_view(statements) =~= seq![first@, second@]);
        Stmt::Block { statements }
    }

    /// The loop that a `for` statement stands for.
    fn desugar(
        initializer: Option<Stmt>,
        condition: Option<Expr>,
        increment: Option<Expr>,
        body: Stmt,
    ) -> (stmt: Stmt)
        ensures
            stmt@ == for_loop(
                optional_statement(initializer),
                crate::ast::statement::optional_view(condition),
                crate::ast::statement::optional_view(increment),
                body@,
            ),
    {
        let inner = match increment {
            Some(increment) => Self::pair(body, Stmt::Expression(increment)),
            None => body,
        };
        let condition = match condition {
            Some(condition) => condition,
            None => Expr::Literal { value: LiteralValue::Boolean(true) },
        };
        let repeated = Stmt::While { condition, body: Box::new(inner) };
        match initializer {
            Some(initializer) => Self::pair(initializer, repeated),
            None => repeated,
        }
    }

    /// forStmt → "for" "(" ( varDecl | exprStmt | ";" ) expression? ";"
    ///           expression? ")" statement
    ///
    /// A `for` statement is turned into the loop that it stands for.
    fn for_statement(&mut self) -> (result: Result<Stmt, ParseError>)
        requires
            old(self).wf(),
        ensures
            stated_as(
                *old(self),
                *final(self),
                result,
                for_statement_spec(
                    old(self).views(),
                    old(self).current as int,
                    error_views(old(self).errors@),
                ),
            ),
        decreases old(self).tokens@.len() - old(self).current, 5nat,
    {
        proof {
            reveal(for_statement_spec);
            reveal(statement_spec);
        }
        let (initializer, condition, increment) = match self.for_clauses() {
            Err(e) => {
                return Err(e);
            },
            Ok(clauses) => clauses,
        };
        match self.statement() {
            Err(e) => Err(e),
            Ok(body) => Ok(Self::desugar(initializer, condition, increment, body)),
        }
    }

    /// block → "{" declaration* "}"
    ///
    /// The "{" has been read.
    fn block(&mut self) -> (result: Result<Vec<Stmt>, ParseError>)
        requires
            old(self).wf(),
        ensures
            moved(
                *old(self),
                *final(self),
                block_spec(
                    old(self).views(),
                    old(self).current as int,
                    error_views(old(self).errors@),
                    Seq::empty(),
                ).pos,
                block_spec(
                    old(self).views(),
                    old(self).current as int,
                    error_views(old(self).errors@),
                    Seq::empty(),
                ).errors,
            ),
            match result {
                Ok(stmts) => block_spec(
                    old(self).views(),
                    old(self).current as int,
                    error_views(old(self).errors@),
                    Seq::empty(),
                ).result == Ok::<Seq<StmtView>, ParseErrorView>(stmts_view(stmts)) && final(self).current > old(self).current,
                Err(error) => block_spec(
                    old(self).views(),
                    old(self).current as int,
                    error_views(old(self).errors@),
                    Seq::empty(),
                ).result == Err::<Seq<StmtView>, ParseErrorView>(error@),
            },
        decreases old(self).tokens@.len() - old(self).current, 12nat,
    {
        proof {
            reveal(block_spec);
            reveal(declaration_spec);
        }
        let mut stmts: Vec<Stmt> = Vec::new();
        assert(stmts_view(stmts) =~= Seq::empty());
        while !self.check(TokenType::RightBrace) && !self.at_end()
            invariant
                self.wf(),
                self.tokens == old(self).tokens,
                self.current >= old(self).current,
                block_spec(
                    old(self).views(),
                    old(self).current as int,
                    error_views(old(self).errors@),
                    Seq::empty(),
                ) == block_spec(
                    self.views(),
                    self.current as int,
                    error_views(self.errors@),
                    stmts_view(stmts),
                ),
            decreases self.tokens@.len() - self.current,
        {
            proof {
                reveal(block_spec);
                reveal(declaration_spec);
            }
            let ghost before = stmts_view(stmts);
            match self.declaration() {
                Some(stmt) => {
                    stmts.push(stmt);
                    assert(stmts_view(stmts) =~= before.push(stmt@));
                },
                None => {},
            }
        }
        match self.consume(TokenType::RightBrace, "Expect '}' after block.") {
            Err(e) => {
                return Err(e);
            },
            Ok(_) => {},
        }
        Ok(stmts)
    }

    /// printStmt → "print" expression ";"
    fn print_statement(&mut self) -> (result: Result<Stmt, ParseError>)
        requires
            old(self).wf(),
        ensures
            stated_as(
                *old(self),
                *final(self),
                result,
                print_statement_spec(
                    old(self).views(),
                    old(self).current as int,
                    error_views(old(self).errors@),
                ),
            ),
    {
        let expr = match self.expression() {
            Err(e) => {
                return Err(e);
            },
            Ok(expr) => expr,
        };
        match self.consume(TokenType::SemiColon, "Expect ';' after value.") {
            Err(e) => {
                return Err(e);
            },
            Ok(_) => {},
        }
        Ok(Stmt::Print(expr))
    }

    /// returnStmt → "return" expression? ";"
    ///
    /// The keyword has been read.
    fn return_statement(&mut self, keyword: Token) -> (result: Result<Stmt, ParseError>)
        requires
            old(self).wf(),
        ensures
            stated_as(
                *old(self),
                *final(self),
                result,
                return_statement_spec(
                    old(self).views(),
                    old(self).current as int,
                    error_views(old(self).errors@),
                    keyword@,
                ),
            ),
    {
        let value_expr = if !self.check(TokenType::SemiColon) {
            match self.expression() {
                Err(e) => {
                    return Err(e);
                },
                Ok(expr) => Some(expr),
            }
        } else {
            None
        };
        match self.consume(TokenType::SemiColon, "Expect ';' after return value.") {
            Err(e) => {
                return Err(e);
            },
            Ok(_) => {},
        }
        Ok(Stmt::Return { keyword, value_expr })
    }

    /// whileStmt → "while" "(" expression ")" statement
    fn while_statement(&mut self) -> (result: Result<Stmt, ParseError>)
        requires
            old(self).wf(),
        ensures
            stated_as(
                *old(self),
                *final(self),
                result,
                while_statement_spec(
                    old(self).views(),
                    old(self).current as int,
                    error_views(old(self).errors@),
                ),
            ),
        decreases old(self).tokens@.len() - old(self).current, 5nat,
    {
        proof {
            reveal(while_statement_spec);
            reveal(statement_spec);
        }
        let condition = match self.condition("Expect '(' after while.", "Expect ')' after condition.") {
            Err(e) => {
                return Err(e);
            },
            Ok(expr) => expr,
        };
        match self.statement() {
            Err(e) => Err(e),
            Ok(body) => Ok(Stmt::While { condition, body: Box::new(body) }),
        }
    }

    /// exprStmt → expression ";"
    fn expr_statement(&mut self) -> (result: Result<Stmt, ParseError>)
        requires
            old(self).wf(),
        ensures
            stated_as(
                *old(self),
                *final(self),
                result,
                expr_statement_spec(
                    old(self).views(),
                    old(self).current as int,
                    error_views(old(self).errors@),
                ),
            ),
    {
        let expr = match self.expression() {
            Err(e) => {
                return Err(e);
            },
            Ok(expr) => expr,
        };
        match self.consume(TokenType::SemiColon, "Expect ';' after expression.") {
            Err(e) => {
                return Err(e);
            },
            Ok(_) => {},
        }
        Ok(Stmt::Expression(expr))
    }

    /// Drops tokens up to the next place where a statement may start:
    /// after a semicolon, or at a keyword that starts a statement.
    fn synchronize(&mut self)
        requires
            old(self).wf(),
        ensures
            final(self).wf(),
            final(self).tokens == old(self).tokens,
            final(self).errors == old(self).errors,
            final(self).current == synchronize_spec(old(self).views(), old(self).current as int),
            final(self).current >= old(self).current,
            kind_at(old(self).views(), old(self).current as int) != TokenType::Eof ==> final(self).current > old(self).current,
    {
        if self.at_end() {
            return ;
        }
        self.advance();
        while !self.at_end()
            invariant
                self.wf(),
                self.tokens == old(self).tokens,
                self.errors == old(self).errors,
                self.current > old(self).current,
                kind_at(old(self).views(), old(self).current as int) != TokenType::Eof,
                boundary(old(self).views(), old(self).current + 1) == boundary(
                    self.views(),
                    self.current as int,
                ),
            decreases self.tokens@.len() - self.current,
        {
            if self.previous().typ == TokenType::SemiColon {
                return ;
            }
            match self.peek().typ {
                TokenType::Class
                | TokenType::Fun
                | TokenType::Var
                | TokenType::For
                | TokenType::If
                | TokenType::While
                | TokenType::Print
                | TokenType::Return => {
                    return ;
                },
                _ => {},
            }
            self.advance();
        }
    }

    /// expression → assignment
    pub fn expression(&mut self) -> (result: Result<Expr, ParseError>)
        requires
            old(self).wf(),
        ensures
            parsed_as(
                *old(self),
                *final(self),
                result,
                expression_spec(old(self).views(), old(self).current as int),
            ),
        decreases old(self).tokens@.len() - old(self).current, 31nat,
    {
        proof {
            reveal(expression_spec);
            reveal(assignment_spec);
        }
        self.assignment()
    }

    /// assignment → ( call "." )? IDENTIFIER "=" assignment | logic_or
    fn assignment(&mut self) -> (result: Result<Expr, ParseError>)
        requires
            old(self).wf(),
        ensures
            parsed_as(
                *old(self),
                *final(self),
                result,
                assignment_spec(old(self).views(), old(self).current as int),
            ),
        decreases old(self).tokens@.len() - old(self).current, 30nat,
    {
        proof {
            reveal(assignment_spec);
            reveal(binary_spec);
        }
        // What stands left of "=".
        let expr = match self.or() {
            Err(e) => {
                return Err(e);
            },
            Ok(expr) => expr,
        };
        if self.check(TokenType::Equal) {
            let equals = self.peek().clone();
            self.advance();
            // What stands right of it.
            let value = match self.assignment() {
                Err(e) => {
                    return Err(e);
                },
                Ok(value) => value,
            };
            match expr {
                Expr::Variable { name } => {
                    return Ok(Expr::Assign { name, value: Box::new(value) });
                },
                Expr::Get { object, name } => {
                    return Ok(Expr::SetProperty { object, name, value: Box::new(value) });
                },
                _ => {
                    return Err(
                        ParseError::new(equals, String::from_str("Invalid assignment target.")),
                    );
                },
            }
        }
        Ok(expr)
    }

    /// logic_or → logic_and ( "or" logic_and )*
    fn or(&mut self) -> (result: Result<Expr, ParseError>)
        requires
            old(self).wf(),
        ensures
            parsed_as(
                *old(self),
                *final(self),
                result,
                binary_spec(old(self).views(), old(self).current as int, 6),
            ),
        decreases old(self).tokens@.len() - old(self).current, 24nat,
    {
        self.binary(6)
    }

    /// logic_and → equality ( "and" equality )*
    fn and(&mut self) -> (result: Result<Expr, ParseError>)
        requires
            old(self).wf(),
        ensures
            parsed_as(
                *old(self),
                *final(self),
                result,
                binary_spec(old(self).views(), old(self).current as int, 5),
            ),
        decreases old(self).tokens@.len() - old(self).current, 21nat,
    {
        self.binary(5)
    }

    /// equality → comparison ( ( "!=" | "==" ) comparison )*
    pub fn equality(&mut self) -> (result: Result<Expr, ParseError>)
        requires
            old(self).wf(),
        ensures
            parsed_as(
                *old(self),
                *final(self),
                result,
                binary_spec(old(self).views(), old(self).current as int, 4),
            ),
        decreases old(self).tokens@.len() - old(self).current, 18nat,
    {
        self.binary(4)
    }

    /// comparison → term ( ( ">" | ">=" | "<" | "<=" ) term )*
    pub fn comparison(&mut self) -> (result: Result<Expr, ParseError>)
        requires
            old(self).wf(),
        ensures
            parsed_as(
                *old(self),
                *final(self),
                result,
                binary_spec(old(self).views(), old(self).current as int, 3),
            ),
        decreases old(self).tokens@.len() - old(self).current, 15nat,
    {
        self.binary(3)
    }

    /// term → factor ( ( "-" | "+" ) factor )*
    pub fn term(&mut self) -> (result: Result<Expr, ParseError>)
        requires
            old(self).wf(),
        ensures
            parsed_as(
                *old(self),
                *final(self),
                result,
                binary_spec(old(self).views(), old(self).current as int, 2),
            ),
        decreases old(self).tokens@.len() - old(self).current, 12nat,
    {
        self.binary(2)
    }

    /// factor → unary ( ( "/" | "*" ) unary )*
    pub fn factor(&mut self) -> (result: Result<Expr, ParseError>)
        requires
            old(self).wf(),
        ensures
            parsed_as(
                *old(self),
                *final(self),
                result,
                binary_spec(old(self).views(), old(self).current as int, 1),
            ),
        decreases old(self).tokens@.len() - old(self).current, 9nat,
    {
        self.binary(1)
    }

    /// How tight the binary operator `typ` binds, or 0 if it is none.
    fn level_of(typ: TokenType) -> (level: usize)
        ensures
            level == operator_level(typ),
    {
        match typ {
            TokenType::Slash | TokenType::Star => 1,
            TokenType::Plus | TokenType::Minus => 2,
            TokenType::Greater
            | TokenType::GreaterEqual
            | TokenType::Less
            | TokenType::LessEqual => 3,
            TokenType::BangEqual | TokenType::EqualEqual => 4,
            TokenType::And => 5,
            TokenType::Or => 6,
            _ => 0,
        }
    }

    /// The operands of the level below.
    fn operand(&mut self, level: usize) -> (result: Result<Expr, ParseError>)
        requires
            old(self).wf(),
            1 <= level <= 6,
        ensures
            parsed_as(
                *old(self),
                *final(self),
                result,
                binary_spec(old(self).views(), old(self).current as int, (level - 1) as nat),
            ),
        decreases old(self).tokens@.len() - old(self).current, 3 * level + 4,
    {
        proof {
            reveal(binary_spec);
            reveal(unary_spec);
        }
        if level == 1 {
            self.unary()
        } else if level == 2 {
            self.factor()
        } else if level == 3 {
            self.term()
        } else if level == 4 {
            self.comparison()
        } else if level == 5 {
            self.equality()
        } else {
            self.and()
        }
    }

    /// An expression of binary operators of the level `level`, from left to
    /// right.
    fn binary(&mut self, level: usize) -> (result: Result<Expr, ParseError>)
        requires
            old(self).wf(),
            1 <= level <= 6,
        ensures
            parsed_as(
                *old(self),
                *final(self),
                result,
                binary_spec(old(self).views(), old(self).current as int, level as nat),
            ),
        decreases old(self).tokens@.len() - old(self).current, 3 * level + 5,
    {
        proof {
            reveal(binary_spec);
            reveal(binary_rest_spec);
        }
        let mut expr = match self.operand(level) {
            Err(e) => {
                return Err(e);
            },
            Ok(expr) => expr,
        };
        while Self::level_of(self.peek().typ) == level
            invariant
                1 <= level <= 6,
                self.wf(),
                self.tokens == old(self).tokens,
                self.errors == old(self).errors,
                self.current > old(self).current,
                binary_spec(old(self).views(), old(self).current as int, level as nat)
                    == binary_rest_spec(self.views(), self.current as int, level as nat, expr@),
            decreases self.tokens@.len() - self.current,
        {
            proof {
                reveal(binary_spec);
                reveal(binary_rest_spec);
            }
            let operator = self.peek().clone();
            self.advance();
            let right = match self.operand(level) {
                Err(e) => {
                    return Err(e);
                },
                Ok(right) => right,
            };
            expr = if level >= 5 {
                Expr::Logical { left: Box::new(expr), operator, right: Box::new(right) }
            } else {
                Expr::Binary { left: Box::new(expr), operator, right: Box::new(right) }
            };
        }
        Ok(expr)
    }

    /// Whether the next token is of the kind `tt`.
    fn check(&self, tt: TokenType) -> (r: bool)
        requires
            self.wf(),
        ensures
            r == (kind_at(self.views(), self.current as int) == tt),
    {
        self.tokens[self.current].typ == tt
    }

    /// Moves past the next token if it is of the kind `tt`.
    fn match_then_consume(&mut self, tt: TokenType) -> (matched: bool)
        requires
            old(self).wf(),
            tt != TokenType::Eof,
        ensures
            final(self).wf(),
            matched == (kind_at(old(self).views(), old(self).current as int) == tt),
            *final(self) == (Parser {
                current: if matched {
                    (old(self).current + 1) as usize
                } else {
                    old(self).current
                },
                ..*old(self)
            }),
    {
        if self.check(tt) {
            self.advance();
            true
        } else {
            false
        }
    }

    /// Moves past the next token, unless it is the end of the input.
    fn advance(&mut self)
        requires
            old(self).wf(),
        ensures
            final(self).wf(),
            *final(self) == (Parser {
                current: if kind_at(old(self).views(), old(self).current as int)
                    == TokenType::Eof {
                    old(self).current
                } else {
                    (old(self).current + 1) as usize
                },
                ..*old(self)
            }),
    {
        if !self.at_end() {
            self.current += 1;
        }
    }

    /// Whether the next token is the end of the input.
    fn at_end(&self) -> (r: bool)
        requires
            self.wf(),
        ensures
            r == (kind_at(self.views(), self.current as int) == TokenType::Eof),
    {
        self.tokens[self.current].typ == TokenType::Eof
    }

    /// The token before the next one.
    fn previous(&self) -> (token: &Token)
        requires
            self.wf(),
            self.current >= 1,
        ensures
            *token == self.tokens@[self.current - 1],
    {
        &self.tokens[self.current - 1]
    }

    /// The next token.
    fn peek(&self) -> (token: &Token)
        requires
            self.wf(),
        ensures
            *token == self.tokens@[self.current as int],
            token.typ == kind_at(self.views(), self.current as int),
    {
        &self.tokens[self.current]
    }

    /// unary → ( "!" | "-" ) unary | call
    pub fn unary(&mut self) -> (result: Result<Expr, ParseError>)
        requires
            old(self).wf(),
        ensures
            parsed_as(
                *old(self),
                *final(self),
                result,
                unary_spec(old(self).views(), old(self).current as int),
            ),
        decreases old(self).tokens@.len() - old(self).current, 3nat,
    {
        proof {
            reveal(unary_spec);
            reveal(call_spec);
        }
        if self.check(TokenType::Bang) || self.check(TokenType::Minus) {
            let operator = self.peek().clone();
            self.advance();
            match self.unary() {
                Err(e) => Err(e),
                Ok(right) => Ok(Expr::Unary { operator, right: Box::new(right) }),
            }
        } else {
            self.call()
        }
    }

    /// call → primary ( "(" arguments? ")" | "." IDENTIFIER )*
    pub fn call(&mut self) -> (result: Result<Expr, ParseError>)
        requires
            old(self).wf(),
        ensures
            parsed_as(
                *old(self),
                *final(self),
                result,
                call_spec(old(self).views(), old(self).current as int),
            ),
        decreases old(self).tokens@.len() - old(self).current, 2nat,
    {
        proof {
            reveal(call_spec);
            reveal(call_rest_spec);
            reveal(primary_spec);
        }
        let mut expr = match self.primary() {
            Err(e) => {
                return Err(e);
            },
            Ok(expr) => expr,
        };
        loop
            invariant
                self.wf(),
                self.tokens == old(self).tokens,
                self.errors == old(self).errors,
                self.current > old(self).current,
                call_spec(old(self).views(), old(self).current as int) == call_rest_spec(
                    self.views(),
                    self.current as int,
                    expr@,
                ),
            ensures
                kind_at(self.views(), self.current as int) != TokenType::LeftParen,
                kind_at(self.views(), self.current as int) != TokenType::Dot,
            decreases self.tokens@.len() - self.current,
        {
            proof {
                reveal(call_spec);
                reveal(call_rest_spec);
                reveal(finish_call_spec);
            }
            if self.match_then_consume(TokenType::LeftParen) {
                expr = match self.finish_call(expr) {
                    Err(e) => {
                        return Err(e);
                    },
                    Ok(call) => call,
                };
            } else if self.match_then_consume(TokenType::Dot) {
                let name = match self.consume_identifier("Expect property name after '.'.") {
                    Err(e) => {
                        return Err(e);
                    },
                    Ok(name) => name,
                };
                expr = Expr::Get { object: Box::new(expr), name };
            } else {
                break;
            }
        }
        Ok(expr)
    }

    /// The call of `callee` whose "(" has been read: the arguments, if any,
    /// and the ")".
    fn finish_call(&mut self, callee: Expr) -> (result: Result<Expr, ParseError>)
        requires
            old(self).wf(),
        ensures
            parsed_as(
                *old(self),
                *final(self),
                result,
                finish_call_spec(old(self).views(), old(self).current as int, callee@),
            ),
        decreases old(self).tokens@.len() - old(self).current, 41nat,
    {
        proof {
            reveal(finish_call_spec);
            reveal(arguments_spec);
            reveal(expression_spec);
        }
        let mut arguments: Vec<Expr> = Vec::new();
        assert(exprs_view(arguments@) =~= Seq::empty());
        if !self.check(TokenType::RightParen) {
            loop
                invariant_except_break
                    self.wf(),
                    self.tokens == old(self).tokens,
                    self.errors == old(self).errors,
                    self.current >= old(self).current,
                    arguments_spec(old(self).views(), old(self).current as int, Seq::empty())
                        == arguments_spec(
                        self.views(),
                        self.current as int,
                        exprs_view(arguments@),
                    ),
                    kind_at(old(self).views(), old(self).current as int) != TokenType::RightParen,
                ensures
                    self.wf(),
                    self.tokens == old(self).tokens,
                    self.errors == old(self).errors,
                    self.current > old(self).current,
                    arguments_spec(old(self).views(), old(self).current as int, Seq::empty())
                        == made(self.current as int, exprs_view(arguments@)),
                    kind_at(old(self).views(), old(self).current as int) != TokenType::RightParen,
                decreases self.tokens@.len() - self.current,
            {
                proof {
                    reveal(finish_call_spec);
                    reveal(arguments_spec);
                    reveal(expression_spec);
                }
                if arguments.len() >= MAX_ARGS_COUNT {
                    return Err(
                        ParseError::new(
                            self.peek().clone(),
                            String::from_str("Can't have more than 255 arguments."),
                        ),
                    );
                }
                let ghost before = exprs_view(arguments@);
                let argument = match self.expression() {
                    Err(e) => {
                        return Err(e);
                    },
                    Ok(argument) => argument,
                };
                arguments.push(argument);
                assert(exprs_view(arguments@) =~= before.push(argument@));
                if !self.match_then_consume(TokenType::Comma) {
                    break;
                }
            }
        }
        if !self.check(TokenType::RightParen) {
            return Err(
                ParseError::new(
                    self.peek().clone(),
                    String::from_str("Expect ')' after arguments."),
                ),
            );
        }
        let paren = self.peek().clone();
        self.advance();
        let call = Expr::Call { callee: Box::new(callee), paren, arguments };
        assert(call@.arrow_Call_arguments() =~= exprs_view(arguments@)) by {
            assert(call@ == crate::ast::expression::expr_view(call));
        }
        Ok(call)
    }

    /// primary → "true" | "false" | "nil" | NUMBER | STRING | "this"
    ///         | IDENTIFIER | "(" expression ")" | "super" "." IDENTIFIER
    pub fn primary(&mut self) -> (result: Result<Expr, ParseError>)
        requires
            old(self).wf(),
        ensures
            parsed_as(
                *old(self),
                *final(self),
                result,
                primary_spec(old(self).views(), old(self).current as int),
            ),
        decreases old(self).tokens@.len() - old(self).current, 0nat,
    {
        proof {
            reveal(primary_spec);
            reveal(expression_spec);
        }
        let token = self.peek().clone();
        let expr = match token.typ {
            TokenType::False => Expr::Literal { value: LiteralValue::Boolean(false) },
            TokenType::True => Expr::Literal { value: LiteralValue::Boolean(true) },
            TokenType::Nil => Expr::Literal { value: LiteralValue::Nil },
            TokenType::String => Expr::Literal { value: LiteralValue::Text(token.contents()) },
            TokenType::Number => Expr::Literal { value: LiteralValue::Number(token.lexeme) },
            TokenType::LeftParen => {
                self.advance();
                let expr = match self.expression() {
                    Err(e) => {
                        return Err(e);
                    },
                    Ok(expr) => expr,
                };
                if !self.check(TokenType::RightParen) {
                    return Err(
                        ParseError::new(
                            self.peek().clone(),
                            String::from_str("Expect ')' after expression."),
                        ),
                    );
                }
                self.advance();
                return Ok(Expr::Grouping { expression: Box::new(expr) });
            },
            TokenType::This => Expr::This { keyword: token },
            TokenType::Super => {
                self.advance();
                if !self.check(TokenType::Dot) {
                    return Err(
                        ParseError::new(
                            self.peek().clone(),
                            String::from_str("Expect '.' after 'super'."),
                        ),
                    );
                }
                self.advance();
                let method = match self.consume_identifier("Expect superclass method name.") {
                    Err(e) => {
                        return Err(e);
                    },
                    Ok(method) => method,
                };
                return Ok(Expr::Super { keyword: token, method });
            },
            TokenType::Identifier => Expr::Variable { name: token },
            unexpected => {
                let mut msg = String::from_str("Expect expression, found ");
                msg.append(unexpected.name());
                return Err(ParseError::new(token, msg));
            },
        };
        self.advance();
        Ok(expr)
    }

    /// Reads the next token if it is of the kind `tt`. If not, that is an
    /// error with the message `error_msg`.
    fn consume(&mut self, tt: TokenType, error_msg: &str) -> (result: Result<Token, ParseError>)
        requires
            old(self).wf(),
            tt != TokenType::Eof,
        ensures
            final(self).wf(),
            match result {
                Ok(token) => {
                    &&& kind_at(old(self).views(), old(self).current as int) == tt
                    &&& token == old(self).tokens@[old(self).current as int]
                    &&& *final(self) == (Parser {
                        current: (old(self).current + 1) as usize,
                        ..*old(self)
                    })
                },
                Err(error) => {
                    &&& kind_at(old(self).views(), old(self).current as int) != tt
                    &&& error@ == (ParseErrorView {
                        token: old(self).tokens@[old(self).current as int]@,
                        msg: error_msg@,
                    })
                    &&& *final(self) == *old(self)
                },
            },
    {
        if self.check(tt) {
            let token = self.peek().clone();
            self.advance();
            Ok(token)
        } else {
            Err(ParseError::new(self.peek().clone(), String::from_str(error_msg)))
        }
    }

    /// Reads the next token if it is an identifier. If not, that is an
    /// error with the message `error_msg`.
    fn consume_identifier(&mut self, error_msg: &str) -> (result: Result<Token, ParseError>)
        requires
            old(self).wf(),
        ensures
            final(self).wf(),
            match result {
                Ok(token) => {
                    &&& kind_at(old(self).views(), old(self).current as int)
                        == TokenType::Identifier
                    &&& token == old(self).tokens@[old(self).current as int]
                    &&& *final(self) == (Parser {
                        current: (old(self).current + 1) as usize,
                        ..*old(self)
                    })
                },
                Err(error) => {
                    &&& kind_at(old(self).views(), old(self).current as int)
                        != TokenType::Identifier
                    &&& error@ == (ParseErrorView {
                        token: old(self).tokens@[old(self).current as int]@,
                        msg: error_msg@,
                    })
                    &&& *final(self) == *old(self)
                },
            },
    {
        self.consume(TokenType::Identifier, error_msg)
    }
}

} // verus!
