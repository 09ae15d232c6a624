//! What the operators do with values: which operands they take, what they
//! give, and how they fail.
use vstd::prelude::*;
use vstd::string::StringExecFns;
use crate::interpreter::error::{RuntimeError, RuntimeErrorView};
use crate::interpreter::values::{equal_values, truthy, LoxValue};
use crate::number::Number;
use crate::text::{decimal, push_decimal};
use crate::token::{Token, TokenType};

verus! {

/// The four operations on numbers whose result the host computes.
#[derive(Debug, Clone, Copy, PartialEq, Eq, Structural)]
pub enum Arithmetic {
    Plus,
    Minus,
    Times,
    Divide,
}

/// What a binary operator does with two values.
#[derive(Debug)]
pub enum BinaryPlan {
    /// The host computes a number from two numbers.
    Compute(Arithmetic, Number, Number),
    /// The result is this truth value.
    Boolean(bool),
    /// The result is this string.
    Text(String),
    /// The operands do not fit the operator.
    Fail(String),
}

/// A plan as a mathematical value.
pub enum BinaryPlanView {
    Compute(Arithmetic, Number, Number),
    Boolean(bool),
    Text(Seq<char>),
    Fail(Seq<char>),
}

impl View for BinaryPlan {
    type V = BinaryPlanView;

    open spec fn view(&self) -> BinaryPlanView {
        match *self {
            BinaryPlan::Compute(operation, left, right) => BinaryPlanView::Compute(
                operation,
                left,
                right,
            ),
            BinaryPlan::Boolean(value) => BinaryPlanView::Boolean(value),
            BinaryPlan::Text(text) => BinaryPlanView::Text(text@),
            BinaryPlan::Fail(message) => BinaryPlanView::Fail(message@),
        }
    }
}

/// The message of `+` for operands that are neither two numbers nor two
/// strings.
pub open spec fn plus_operands() -> Seq<char> {
    "Operands must be two numbers or two Strings"@
}

/// The message of the other arithmetic operators and of the comparisons for
/// operands that are not two numbers.
pub open spec fn number_operands() -> Seq<char> {
    "Operands must be numbers"@
}

/// What the operator of two numbers `a` and `b` does.
pub open spec fn number_plan(operator: TokenType, a: Number, b: Number) -> BinaryPlanView {
    match operator {
        TokenType::Minus => BinaryPlanView::Compute(Arithmetic::Minus, a, b),
        TokenType::Slash => BinaryPlanView::Compute(Arithmetic::Divide, a, b),
        TokenType::Star => BinaryPlanView::Compute(Arithmetic::Times, a, b),
        TokenType::Plus => BinaryPlanView::Compute(Arithmetic::Plus, a, b),
        TokenType::Greater => BinaryPlanView::Boolean(b.lt_spec(a)),
        TokenType::GreaterEqual => BinaryPlanView::Boolean(b.lt_spec(a) || b.eq_spec(a)),
        TokenType::Less => BinaryPlanView::Boolean(a.lt_spec(b)),
        TokenType::LessEqual => BinaryPlanView::Boolean(a.lt_spec(b) || a.eq_spec(b)),
        TokenType::EqualEqual => BinaryPlanView::Boolean(a.eq_spec(b)),
        TokenType::BangEqual => BinaryPlanView::Boolean(!a.eq_spec(b)),
        _ => BinaryPlanView::Fail("Unknown binary operator."@),
    }
}

/// What the binary operator `operator` does with `left` and `right`.
/// Arithmetic and the order are for two numbers, and `+` also joins two
/// strings. Equality takes any two values and never fails.
pub open spec fn binary_plan(operator: TokenType, left: LoxValue, right: LoxValue) -> BinaryPlanView {
    match (left, right) {
        (LoxValue::Number(a), LoxValue::Number(b)) => number_plan(operator, a, b),
        _ => match operator {
            TokenType::Plus => match (left, right) {
                (LoxValue::String(a), LoxValue::String(b)) => BinaryPlanView::Text(a@ + b@),
                _ => BinaryPlanView::Fail(plus_operands()),
            },
            TokenType::Minus
            | TokenType::Slash
            | TokenType::Star
            | TokenType::Greater
            | TokenType::GreaterEqual
            | TokenType::Less
            | TokenType::LessEqual => BinaryPlanView::Fail(number_operands()),
            TokenType::EqualEqual => BinaryPlanView::Boolean(equal_values(left, right)),
            TokenType::BangEqual => BinaryPlanView::Boolean(!equal_values(left, right)),
            _ => BinaryPlanView::Fail("Unknown binary operator."@),
        },
    }
}

/// What the operator of two numbers does.
fn plan_numbers(operator: TokenType, a: Number, b: Number) -> (plan: BinaryPlan)
    ensures
        plan@ == number_plan(operator, a, b),
{
    match operator {
        TokenType::Minus => BinaryPlan::Compute(Arithmetic::Minus, a, b),
        TokenType::Slash => BinaryPlan::Compute(Arithmetic::Divide, a, b),
        TokenType::Star => BinaryPlan::Compute(Arithmetic::Times, a, b),
        TokenType::Plus => BinaryPlan::Compute(Arithmetic::Plus, a, b),
        TokenType::Greater => BinaryPlan::Boolean(b.lt(a)),
        TokenType::GreaterEqual => BinaryPlan::Boolean(b.le(a)),
        TokenType::Less => BinaryPlan::Boolean(a.lt(b)),
        TokenType::LessEqual => BinaryPlan::Boolean(a.le(b)),
        TokenType::EqualEqual => BinaryPlan::Boolean(a.equals(b)),
        TokenType::BangEqual => BinaryPlan::Boolean(!a.equals(b)),
        _ => BinaryPlan::Fail(String::from_str("Unknown binary operator.")),
    }
}

/// What the binary operator `operator` does with `left` and `right`.
pub fn plan_binary(operator: &Token, left: &LoxValue, right: &LoxValue) -> (plan: BinaryPlan)
    ensures
        plan@ == binary_plan(operator.typ, *left, *right),
{
    match (left, right) {
        (LoxValue::Number(a), LoxValue::Number(b)) => plan_numbers(operator.typ, *a, *b),
        _ => match operator.typ {
            TokenType::Plus => match (left, right) {
                (LoxValue::String(a), LoxValue::String(b)) => {
                    let mut text = a.clone();
                    text.append(b.as_str());
                    BinaryPlan::Text(text)
                },
                _ => BinaryPlan::Fail(
                    String::from_str("Operands must be two numbers or two Strings"),
                ),
            },
            TokenType::Minus
            | TokenType::Slash
            | TokenType::Star
            | TokenType::Greater
            | TokenType::GreaterEqual
            | TokenType::Less
            | TokenType::LessEqual => BinaryPlan::Fail(String::from_str("Operands must be numbers")),
            TokenType::EqualEqual => BinaryPlan::Boolean(left.equals(right)),
            TokenType::BangEqual => BinaryPlan::Boolean(!left.equals(right)),
            _ => BinaryPlan::Fail(String::from_str("Unknown binary operator.")),
        },
    }
}

/// `+` and the comparisons refuse operands in different words: the one asks
/// for numbers or strings, the others for numbers.
pub proof fn lemma_operand_messages_differ()
    ensures
        plus_operands() != number_operands(),
{
    reveal_strlit("Operands must be two numbers or two Strings");
    reveal_strlit("Operands must be numbers");
    assert(plus_operands().len() != number_operands().len());
}

/// What a unary operator gives for `value`: `-` negates a number and
/// refuses anything else, `!` gives whether the value counts as false.
pub open spec fn unary_result(operator: Token, value: LoxValue) -> Result<LoxValue, RuntimeErrorView> {
    match operator.typ {
        TokenType::Minus => match value {
            LoxValue::Number(number) => Ok(LoxValue::Number(number.neg_spec())),
            _ => Err(RuntimeErrorView { token: operator@, message: "Operand must be number."@ }),
        },
        TokenType::Bang => Ok(LoxValue::Boolean(!truthy(value))),
        _ => Err(RuntimeErrorView { token: operator@, message: "Unknown unary operator."@ }),
    }
}

/// Whether `result` is what `expected` says: the same value, or an error
/// with the same token and message.
pub open spec fn matches_result(
    result: Result<LoxValue, RuntimeError>,
    expected: Result<LoxValue, RuntimeErrorView>,
) -> bool {
    match (result, expected) {
        (Ok(value), Ok(wanted)) => value == wanted,
        (Err(error), Err(wanted)) => error@ == wanted,
        _ => false,
    }
}

/// Applies the unary operator `operator` to `value`.
pub fn apply_unary(operator: &Token, value: &LoxValue) -> (result: Result<LoxValue, RuntimeError>)
    ensures
        matches_result(result, unary_result(*operator, *value)),
{
    match operator.typ {
        TokenType::Minus => match value {
            LoxValue::Number(number) => Ok(LoxValue::Number(number.negate())),
            _ => Err(RuntimeError::at(operator, "Operand must be number.")),
        },
        TokenType::Bang => Ok(LoxValue::Boolean(!value.is_truthy())),
        _ => Err(RuntimeError::at(operator, "Unknown unary operator.")),
    }
}

/// Whether `and` or `or` is decided by its left operand alone: `or` by a
/// value that counts as true, `and` by one that counts as false.
pub open spec fn decided_by_left(operator: Token, left: LoxValue) -> Result<bool, RuntimeErrorView> {
    match operator.typ {
        TokenType::Or => Ok(truthy(left)),
        TokenType::And => Ok(!truthy(left)),
        _ => Err(RuntimeErrorView { token: operator@, message: "Unknown logical operator."@ }),
    }
}

/// Whether the logical operator `operator` is decided by `left` alone, so
/// that its right operand is not evaluated.
pub fn short_circuits(operator: &Token, left: &LoxValue) -> (result: Result<bool, RuntimeError>)
    ensures
        match (result, decided_by_left(*operator, *left)) {
            (Ok(decided), Ok(wanted)) => decided == wanted,
            (Err(error), Err(wanted)) => error@ == wanted,
            _ => false,
        },
{
    match operator.typ {
        TokenType::Or => Ok(left.is_truthy()),
        TokenType::And => Ok(!left.is_truthy()),
        _ => Err(RuntimeError::at(operator, "Unknown logical operator.")),
    }
}

/// The message for a call with `got` arguments of what takes `expected`.
pub open spec fn arity_message(expected: nat, got: nat) -> Seq<char> {
    "Expected "@ + decimal(expected) + " arguments but got "@ + decimal(got) + "."@
}

/// Checks that a call at `paren` gives as many arguments as are taken.
pub fn check_arity(paren: &Token, expected: usize, got: usize) -> (result: Result<(), RuntimeError>)
    ensures
        match result {
            Ok(()) => expected == got,
            Err(error) => expected != got && error@ == (RuntimeErrorView {
                token: paren@,
                message: arity_message(expected as nat, got as nat),
            }),
        },
{
    if expected == got {
        return Ok(());
    }
    let mut message = String::from_str("Expected ");
    push_decimal(&mut message, expected);
    message.append(" arguments but got ");
    push_decimal(&mut message, got);
    message.append(".");
    Err(RuntimeError::new(paren.clone(), message))
}

} // verus!
