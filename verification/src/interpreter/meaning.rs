//! What the interpreter does, as relations between the interpreter before
//! and after, and the result.
//!
//! Each relation says of one of the interpreter's functions what it does,
//! step by step: which parts are evaluated in which order, what becomes of
//! the heap, and what the result is. Of what the host answers the
//! relations say only what holds whatever the answer is: that arithmetic
//! gives a number, that the value of a number's digits is a number, and
//! that the clock gives a number or fails. Every expression evaluated and
//! every statement executed takes one step, and without a step left they
//! fail.
use std::rc::Rc;
use vstd::prelude::*;
use crate::ast::{Expr, FuncDeclaration, LiteralValue, Stmt};
use crate::interpreter::callables::callable_arity;
use crate::interpreter::class::find_method_spec;
use crate::interpreter::environment::{holder, lookup_at, Heap};
use crate::interpreter::error::{RuntimeError, RuntimeErrorView};
use crate::errors::diagnostic;
use crate::interpreter::operators::{
    arity_message, binary_plan, decided_by_left, matches_result, unary_result, Arithmetic,
    BinaryPlanView,
};
use crate::interpreter::shown;
use crate::number::Number;
use crate::interpreter::semantics::{
    assigned, bound_to, fails_with, field_set, got, instance_added, performed, scope_added,
    step_limit_reached, super_method,
};
use crate::interpreter::values::{truthy, LoxCallable, LoxFunction, LoxValue};
use crate::interpreter::{clock_failure, Completion, Interpreter};
use crate::token::Token;

verus! {

/// A mark on what a relation speaks of: the interpreter in between and the
/// result in between. It holds of everything.
pub open spec fn seen<A, B>(a: A, b: B) -> bool {
    true
}

/// What passes between the interpreter and the host, one exchange for
/// each time the host is called: what the interpreter hands over, and what
/// the host answers where it answers.
pub enum Exchange {
    /// The host is asked for the number that the digits of a literal stand
    /// for.
    Digits { digits: Seq<char>, answer: Number },
    /// The host is asked to compute with two numbers.
    Compute { operation: Arithmetic, left: Number, right: Number, answer: Number },
    /// The host is asked for the text of a number.
    Show { number: Number, answer: Seq<char> },
    /// The host is asked for the time, and gives it or says why it
    /// cannot.
    Clock { time: Option<Number>, reason: Seq<char> },
    /// The host is handed a line that the program prints.
    Print { line: Seq<char> },
    /// The host is handed the diagnostic of an error that stopped a
    /// statement.
    Report { line: Seq<char> },
}

/// Whether `after` is `before` but for the exchanges with the host, which
/// are `log`.
pub open spec fn told(before: Interpreter, after: Interpreter, log: Seq<Exchange>) -> bool {
    after.log@ == log && after == (Interpreter { log: after.log, ..before })
}

/// The exchanges after a literal was evaluated with the result `result`:
/// for a number, the host was asked what its digits stand for.
pub open spec fn literal_log(
    log: Seq<Exchange>,
    value: LiteralValue,
    result: Result<LoxValue, RuntimeError>,
) -> Seq<Exchange> {
    match (value, result) {
        (LiteralValue::Number(digits), Ok(LoxValue::Number(answer))) => log.push(
            Exchange::Digits { digits: digits@, answer },
        ),
        _ => log,
    }
}

/// The exchanges after a binary operator was applied as `plan` says, with
/// the result `result`: where a number is to be computed, the host was
/// asked to compute it.
pub open spec fn compute_log(
    log: Seq<Exchange>,
    plan: BinaryPlanView,
    result: Result<LoxValue, RuntimeError>,
) -> Seq<Exchange> {
    match (plan, result) {
        (BinaryPlanView::Compute(operation, left, right), Ok(LoxValue::Number(answer))) => log.push(
            Exchange::Compute { operation, left, right, answer },
        ),
        _ => log,
    }
}

/// The exchanges after the line `line` was printed for the value `value`:
/// for a number the host was asked for its text, and then the host was
/// handed the line.
pub open spec fn print_log(log: Seq<Exchange>, value: LoxValue, line: Seq<char>) -> Seq<Exchange> {
    match value {
        LoxValue::Number(number) => log.push(Exchange::Show { number, answer: line }).push(
            Exchange::Print { line },
        ),
        _ => log.push(Exchange::Print { line }),
    }
}

/// What the host said of the time, as the result of the clock tells.
pub open spec fn clock_exchange(result: Result<LoxValue, RuntimeError>) -> Exchange {
    match result {
        Ok(LoxValue::Number(time)) => Exchange::Clock { time: Some(time), reason: Seq::empty() },
        Ok(_) => Exchange::Clock { time: None, reason: Seq::empty() },
        Err(error) => Exchange::Clock { time: None, reason: error@.message },
    }
}

/// The exchanges after a statement ended as `ended` does where nothing is
/// around it: the host was handed the diagnostic of a failure.
pub open spec fn report_log(log: Seq<Exchange>, ended: Result<Completion, RuntimeError>) -> Seq<
    Exchange,
> {
    match ended {
        Err(error) => log.push(
            Exchange::Report {
                line: diagnostic(error.token.line as nat, Seq::empty(), error.message@),
            },
        ),
        Ok(_) => log,
    }
}

/// `before` after one step.
pub open spec fn spent(before: Interpreter) -> Interpreter {
    Interpreter { steps_left: (before.steps_left - 1) as u64, ..before }
}

/// Whether `result` is the failure that `inner` is.
pub open spec fn same_failure<A, B>(
    result: Result<A, RuntimeError>,
    inner: Result<B, RuntimeError>,
) -> bool {
    inner matches Err(error) && (result matches Err(found) && found == error)
}

/// Whether `result` is the value of the literal `value`. The value of a
/// number's digits is the host's.
pub open spec fn literal_made(value: LiteralValue, result: Result<LoxValue, RuntimeError>) -> bool {
    match value {
        LiteralValue::Nil => result == Ok::<LoxValue, RuntimeError>(LoxValue::Nil),
        LiteralValue::Boolean(b) => result == Ok::<LoxValue, RuntimeError>(LoxValue::Boolean(b)),
        LiteralValue::Text(text) => result == Ok::<LoxValue, RuntimeError>(LoxValue::String(text)),
        LiteralValue::Number(_) => result matches Ok(LoxValue::Number(_)),
    }
}

/// A unary operator: the operand is evaluated, and the operator applied to
/// its value.
#[verifier::opaque]
pub open spec fn unary_evaluated(
    before: Interpreter,
    operator: Token,
    right: Expr,
    after: Interpreter,
    result: Result<LoxValue, RuntimeError>,
) -> bool
    decreases before.steps_left, 10nat, 0nat,
{
    exists|operand: Result<LoxValue, RuntimeError>|
        #[trigger] seen(operand, ()) && evaluated(before, right, after, operand) && match operand {
            Ok(value) => matches_result(result, unary_result(operator, value)),
            Err(_) => result == operand,
        }
}

/// A binary operator: the left operand is evaluated, then the right one,
/// then the operator is applied to the two values.
#[verifier::opaque]
pub open spec fn binary_evaluated(
    before: Interpreter,
    left: Expr,
    operator: Token,
    right: Expr,
    after: Interpreter,
    result: Result<LoxValue, RuntimeError>,
) -> bool
    decreases before.steps_left, 10nat, 0nat,
{
    exists|mid: Interpreter, first: Result<LoxValue, RuntimeError>|
        #[trigger] seen(mid, first) && evaluated(before, left, mid, first) && match first {
            Err(_) => after == mid && result == first,
            Ok(a) => mid.steps_left <= before.steps_left && exists|
                last: Interpreter,
                second: Result<LoxValue, RuntimeError>,
            |
                #[trigger] seen(last, second) && evaluated(mid, right, last, second)
                    && match second {
                    Err(_) => after == last && result == second,
                    Ok(b) => performed(result, operator, binary_plan(operator.typ, a, b))
                        && told(
                        last,
                        after,
                        compute_log(last.log@, binary_plan(operator.typ, a, b), result),
                    ),
                },
        }
}

/// A logical operator: the left operand is evaluated; if its value
/// decides, it is the result, and else the right operand is.
#[verifier::opaque]
pub open spec fn logical_evaluated(
    before: Interpreter,
    left: Expr,
    operator: Token,
    right: Expr,
    after: Interpreter,
    result: Result<LoxValue, RuntimeError>,
) -> bool
    decreases before.steps_left, 10nat, 0nat,
{
    exists|mid: Interpreter, first: Result<LoxValue, RuntimeError>|
        #[trigger] seen(mid, first) && evaluated(before, left, mid, first) && match first {
            Err(_) => after == mid && result == first,
            Ok(value) => match decided_by_left(operator, value) {
                Err(error) => after == mid && fails_with(result, error),
                Ok(decided) => if decided {
                    after == mid && result == first
                } else {
                    mid.steps_left <= before.steps_left && evaluated(mid, right, after, result)
                },
            },
        }
}

/// The expressions of `exprs` from index `from` on are evaluated in order,
/// up to the first that fails. The result is the values `found` followed
/// by theirs.
#[verifier::opaque]
pub open spec fn evaluated_all(
    before: Interpreter,
    exprs: Vec<Expr>,
    from: int,
    found: Seq<LoxValue>,
    after: Interpreter,
    result: Result<Vec<LoxValue>, RuntimeError>,
) -> bool
    decreases before.steps_left, 1nat, exprs.len() - from,
{
    if 0 <= from < exprs.len() {
        exists|mid: Interpreter, first: Result<LoxValue, RuntimeError>|
            #[trigger] seen(mid, first) && evaluated(before, exprs[from], mid, first) && match first {
                Err(_) => after == mid && same_failure(result, first),
                Ok(value) => mid.steps_left <= before.steps_left && evaluated_all(
                    mid,
                    exprs,
                    from + 1,
                    found.push(value),
                    after,
                    result,
                ),
            }
    } else {
        after == before && (result matches Ok(values) && values@ == found)
    }
}

/// A call: the callee is evaluated, then the arguments, and then the
/// callee's value is called with theirs.
#[verifier::opaque]
pub open spec fn call_evaluated(
    before: Interpreter,
    callee: Expr,
    paren: Token,
    arguments: Vec<Expr>,
    after: Interpreter,
    result: Result<LoxValue, RuntimeError>,
) -> bool
    decreases before.steps_left, 10nat, 0nat,
{
    exists|mid: Interpreter, target: Result<LoxValue, RuntimeError>|
        #[trigger] seen(mid, target) && evaluated(before, callee, mid, target) && match target {
            Err(_) => after == mid && result == target,
            Ok(value) => mid.steps_left <= before.steps_left && exists|
                last: Interpreter,
                given: Result<Vec<LoxValue>, RuntimeError>,
            |
                #[trigger] seen(last, given) && evaluated_all(mid, arguments, 0, Seq::empty(), last, given)
                    && match given {
                    Err(_) => after == last && same_failure(result, given),
                    Ok(values) => last.steps_left <= mid.steps_left && applied(
                        last,
                        value,
                        paren,
                        values@,
                        after,
                        result,
                    ),
                },
        }
}

/// Calling the value `callee`: only functions and classes can be called,
/// and only with as many arguments as they take.
#[verifier::opaque]
pub open spec fn applied(
    before: Interpreter,
    callee: LoxValue,
    paren: Token,
    arguments: Seq<LoxValue>,
    after: Interpreter,
    result: Result<LoxValue, RuntimeError>,
) -> bool
    decreases before.steps_left, 6nat, 0nat,
{
    match callee {
        LoxValue::Callable(callable) => if callable_arity(callable, before.heap)
            != arguments.len() {
            after == before && fails_with(
                result,
                RuntimeErrorView {
                    token: paren@,
                    message: arity_message(
                        callable_arity(callable, before.heap),
                        arguments.len(),
                    ),
                },
            )
        } else {
            called(before, callable, arguments, after, result)
        },
        _ => after == before && fails_with(
            result,
            RuntimeErrorView { token: paren@, message: "Can only call functions and classes."@ },
        ),
    }
}

/// Calling a callable: the clock gives the host's time or fails, a
/// function runs its body, a class makes an instance.
#[verifier::opaque]
pub open spec fn called(
    before: Interpreter,
    callable: LoxCallable,
    arguments: Seq<LoxValue>,
    after: Interpreter,
    result: Result<LoxValue, RuntimeError>,
) -> bool
    decreases before.steps_left, 5nat, 0nat,
{
    match callable {
        LoxCallable::Clock => told(before, after, before.log@.push(clock_exchange(result))) && (
        result matches Ok(LoxValue::Number(_)) || exists|reason: Seq<char>|
            #[trigger] seen(reason, ()) && fails_with(result, clock_failure(reason))),
        LoxCallable::LoxFunction(function) => function_called(
            before,
            function,
            arguments,
            after,
            result,
        ),
        LoxCallable::Class(class) => class_called(before, class, arguments, after, result),
    }
}

/// The variables that the first `count` parameters of `params` are, with
/// the arguments `arguments` as their values.
pub open spec fn bound_params(params: Seq<Token>, arguments: Seq<LoxValue>, count: int) -> Map<
    Seq<char>,
    LoxValue,
>
    decreases count,
{
    if count <= 0 {
        Map::empty()
    } else {
        bound_params(params, arguments, count - 1).insert(
            params[count - 1]@.lexeme,
            arguments[count - 1],
        )
    }
}

/// Whether `after` is `before` with one more environment, the one of a
/// call of `function` with `arguments`: inside the environment that the
/// function was declared in, with the parameters as variables, as many as
/// there are arguments for.
pub open spec fn params_bound(
    before: Heap,
    after: Heap,
    function: LoxFunction,
    arguments: Seq<LoxValue>,
) -> bool {
    &&& after.envs@.len() == before.envs@.len() + 1
    &&& after.envs@[before.envs@.len() as int].enclosing == Some(function.closure)
    &&& after.envs@[before.envs@.len() as int].values@ == bound_params(
        function.declaration.params@,
        arguments,
        if arguments.len() <= function.declaration.params@.len() {
            arguments.len() as int
        } else {
            function.declaration.params@.len() as int
        },
    )
    &&& forall|i: int| 0 <= i < before.envs@.len() ==> after.envs@[i] == before.envs@[i]
    &&& after.classes == before.classes
    &&& after.instances == before.instances
}

/// What a call of `function` gives when its body ended as `ended` does:
/// a failure is the failure; an initializer gives what `this` is where it
/// was declared; any other function gives what it returned, or `nil`.
pub open spec fn returned(
    function: LoxFunction,
    heap: Heap,
    ended: Result<Completion, RuntimeError>,
    result: Result<LoxValue, RuntimeError>,
) -> bool {
    match ended {
        Err(_) => same_failure(result, ended),
        Ok(completion) => if function.is_initializer {
            result == Ok::<LoxValue, RuntimeError>(
                match lookup_at(heap.envs@, function.closure as int, 0, "this"@) {
                    Some(instance) => instance,
                    None => LoxValue::Nil,
                },
            )
        } else {
            match completion {
                Completion::Normal => result == Ok::<LoxValue, RuntimeError>(LoxValue::Nil),
                Completion::Return(value) => result == Ok::<LoxValue, RuntimeError>(value),
            }
        },
    }
}

/// Calling a function: its parameters are bound in a new environment
/// inside the one it was declared in, its body is executed there, and the
/// interpreter comes back to where it was.
#[verifier::opaque]
pub open spec fn function_called(
    before: Interpreter,
    function: LoxFunction,
    arguments: Seq<LoxValue>,
    after: Interpreter,
    result: Result<LoxValue, RuntimeError>,
) -> bool
    decreases before.steps_left, 3nat, 0nat,
{
    exists|bound: Heap, ended: Result<Completion, RuntimeError>|
        #[trigger] seen(bound, ended) && params_bound(before.heap, bound, function, arguments) && returned(
            function,
            after.heap,
            ended,
            result,
        ) && block_executed(
            Interpreter { heap: bound, ..before },
            function.declaration.body,
            before.heap.envs@.len() as usize,
            after,
            ended,
        )
}

/// Calling a class: an instance of the class is made; if the class has an
/// initializer, it is bound to the instance and called with the arguments.
/// The result is the instance.
#[verifier::opaque]
pub open spec fn class_called(
    before: Interpreter,
    class: usize,
    arguments: Seq<LoxValue>,
    after: Interpreter,
    result: Result<LoxValue, RuntimeError>,
) -> bool
    decreases before.steps_left, 4nat, 0nat,
{
    exists|made: Heap|
        #[trigger] seen(made, ()) && instance_added(before.heap, made, class) && match find_method_spec(
            before.heap.classes@,
            class as int,
            "init"@,
        ) {
            None => after == (Interpreter { heap: made, ..before }) && result == Ok::<
                LoxValue,
                RuntimeError,
            >(LoxValue::Instance(before.heap.instances@.len() as usize)),
            Some(initializer) => exists|
                ready: Heap,
                bound: LoxFunction,
                ended: Result<LoxValue, RuntimeError>,
            | #[trigger] seen(ready, (bound, ended)) && bound_to(
                    made,
                    ready,
                    initializer,
                    before.heap.instances@.len() as usize,
                    bound,
                ) && function_called(
                    Interpreter { heap: ready, ..before },
                    bound,
                    arguments,
                    after,
                    ended,
                ) && match ended {
                    Err(_) => result == ended,
                    Ok(_) => result == Ok::<LoxValue, RuntimeError>(
                        LoxValue::Instance(before.heap.instances@.len() as usize),
                    ),
                },
        }
}

/// Reading a property: the object is evaluated, and the property of the
/// instance that it is is read.
#[verifier::opaque]
pub open spec fn get_evaluated(
    before: Interpreter,
    object: Expr,
    name: Token,
    after: Interpreter,
    result: Result<LoxValue, RuntimeError>,
) -> bool
    decreases before.steps_left, 10nat, 0nat,
{
    exists|mid: Interpreter, target: Result<LoxValue, RuntimeError>|
        #[trigger] seen(mid, target) && evaluated(before, object, mid, target) && match target {
            Err(_) => after == mid && result == target,
            Ok(LoxValue::Instance(instance)) => got(mid.heap, after.heap, instance, name, result)
                && after.on(&mid, after.heap, mid.steps_left),
            Ok(_) => after == mid && fails_with(
                result,
                RuntimeErrorView { token: name@, message: "Only instances have properties."@ },
            ),
        }
}

/// Writing a property: the object is evaluated, then the value, and the
/// field of the instance that the object is is set. The result is the
/// value.
#[verifier::opaque]
pub open spec fn set_evaluated(
    before: Interpreter,
    object: Expr,
    name: Token,
    value: Expr,
    after: Interpreter,
    result: Result<LoxValue, RuntimeError>,
) -> bool
    decreases before.steps_left, 10nat, 0nat,
{
    exists|mid: Interpreter, target: Result<LoxValue, RuntimeError>|
        #[trigger] seen(mid, target) && evaluated(before, object, mid, target) && match target {
            Err(_) => after == mid && result == target,
            Ok(LoxValue::Instance(instance)) => mid.steps_left <= before.steps_left && exists|
                last: Interpreter,
                given: Result<LoxValue, RuntimeError>,
            | #[trigger] seen(last, given) && evaluated(mid, value, last, given) && match given {
                    Err(_) => after == last && result == given,
                    Ok(new) => result == given && field_set(
                        last.heap,
                        after.heap,
                        instance,
                        name,
                        new,
                    ) && after.on(&last, after.heap, last.steps_left),
                },
            Ok(_) => after == mid && fails_with(
                result,
                RuntimeErrorView { token: name@, message: "Only instances have fields."@ },
            ),
        }
}

/// An assignment: the value is evaluated and given to the variable that
/// `expr` refers to by the name `name`. The result is the value.
#[verifier::opaque]
pub open spec fn assign_evaluated(
    before: Interpreter,
    expr: Expr,
    name: Token,
    value: Expr,
    after: Interpreter,
    result: Result<LoxValue, RuntimeError>,
) -> bool
    decreases before.steps_left, 10nat, 0nat,
{
    exists|mid: Interpreter, given: Result<LoxValue, RuntimeError>|
        #[trigger] seen(mid, given) && evaluated(before, value, mid, given) && match given {
            Err(_) => after == mid && result == given,
            Ok(new) => assigned(mid.scene(), after.heap, expr, name, new, result) && after.on(
                &mid,
                after.heap,
                mid.steps_left,
            ),
        }
}

/// `super.method`: the method of the superclass, bound to the instance
/// that `this` is.
pub open spec fn super_evaluated(
    before: Interpreter,
    expr: Expr,
    keyword: Token,
    method: Token,
    after: Interpreter,
    result: Result<LoxValue, RuntimeError>,
) -> bool {
    match super_method(before.scene(), expr, keyword, method) {
        Ok((found, instance)) => {
            &&& result matches Ok(LoxValue::Callable(LoxCallable::LoxFunction(bound)))
            &&& bound_to(before.heap, after.heap, found, instance, bound)
            &&& after.on(&before, after.heap, before.steps_left)
        },
        Err(error) => fails_with(result, error) && after == before,
    }
}

/// Evaluating an expression.
#[verifier::opaque]
pub open spec fn evaluated(
    before: Interpreter,
    expr: Expr,
    after: Interpreter,
    result: Result<LoxValue, RuntimeError>,
) -> bool
    decreases before.steps_left, 0nat, 0nat,
{
    if before.steps_left == 0 {
        after == before && fails_with(result, step_limit_reached())
    } else {
        match expr {
            Expr::Literal { value } => literal_made(value, result) && told(
                spent(before),
                after,
                literal_log(before.log@, value, result),
            ),
            Expr::Variable { name } => after == spent(before) && matches_result(
                result,
                before.variable_value(expr, name),
            ),
            Expr::This { keyword } => after == spent(before) && matches_result(
                result,
                before.variable_value(expr, keyword),
            ),
            Expr::Grouping { expression } => evaluated(spent(before), *expression, after, result),
            Expr::Unary { operator, right } => unary_evaluated(
                spent(before),
                operator,
                *right,
                after,
                result,
            ),
            Expr::Binary { left, operator, right } => binary_evaluated(
                spent(before),
                *left,
                operator,
                *right,
                after,
                result,
            ),
            Expr::Logical { left, operator, right } => logical_evaluated(
                spent(before),
                *left,
                operator,
                *right,
                after,
                result,
            ),
            Expr::Call { callee, paren, arguments } => call_evaluated(
                spent(before),
                *callee,
                paren,
                arguments,
                after,
                result,
            ),
            Expr::Get { object, name } => get_evaluated(spent(before), *object, name, after, result),
            Expr::SetProperty { object, name, value } => set_evaluated(
                spent(before),
                *object,
                name,
                *value,
                after,
                result,
            ),
            Expr::Assign { name, value } => assign_evaluated(
                spent(before),
                expr,
                name,
                *value,
                after,
                result,
            ),
            Expr::Super { keyword, method } => super_evaluated(
                spent(before),
                expr,
                keyword,
                method,
                after,
                result,
            ),
        }
    }
}

/// The statements of `statements` from index `from` on are executed in
/// order, up to the first that returns or fails.
#[verifier::opaque]
pub open spec fn executed_all(
    before: Interpreter,
    statements: Vec<Stmt>,
    from: int,
    after: Interpreter,
    result: Result<Completion, RuntimeError>,
) -> bool
    decreases before.steps_left, 1nat, statements.len() - from,
{
    if 0 <= from < statements.len() {
        exists|mid: Interpreter, ended: Result<Completion, RuntimeError>|
            #[trigger] seen(mid, ended) && executed(before, statements[from], mid, ended) && match ended {
                Ok(Completion::Normal) => mid.steps_left <= before.steps_left && executed_all(
                    mid,
                    statements,
                    from + 1,
                    after,
                    result,
                ),
                _ => after == mid && result == ended,
            }
    } else {
        after == before && result == Ok::<Completion, RuntimeError>(Completion::Normal)
    }
}

/// The statements are executed in the environment at `environment`, and
/// the interpreter comes back to the environment that it was in, however
/// they end.
#[verifier::opaque]
pub open spec fn block_executed(
    before: Interpreter,
    statements: Vec<Stmt>,
    environment: usize,
    after: Interpreter,
    result: Result<Completion, RuntimeError>,
) -> bool
    decreases before.steps_left, 2nat, 0nat,
{
    after.environment == before.environment && executed_all(
        Interpreter { environment, ..before },
        statements,
        0,
        Interpreter { environment, ..after },
        result,
    )
}

/// A loop: the condition is evaluated; if it counts as true, the body is
/// executed and the loop goes on, unless the body returned or failed.
#[verifier::opaque]
pub open spec fn looped(
    before: Interpreter,
    condition: Expr,
    body: Stmt,
    after: Interpreter,
    result: Result<Completion, RuntimeError>,
) -> bool
    decreases before.steps_left, 1nat, 0nat,
{
    exists|mid: Interpreter, test: Result<LoxValue, RuntimeError>|
        #[trigger] seen(mid, test) && evaluated(before, condition, mid, test) && match test {
            Err(_) => after == mid && same_failure(result, test),
            Ok(value) => if !truthy(value) {
                after == mid && result == Ok::<Completion, RuntimeError>(Completion::Normal)
            } else {
                mid.steps_left <= before.steps_left && exists|
                    next: Interpreter,
                    ended: Result<Completion, RuntimeError>,
                | #[trigger] seen(next, ended) && executed(mid, body, next, ended) && match ended {
                        Ok(Completion::Normal) => next.steps_left < before.steps_left && looped(
                            next,
                            condition,
                            body,
                            after,
                            result,
                        ),
                        _ => after == next && result == ended,
                    }
            },
        }
}

/// Whether `result` is what a statement gives that evaluated an
/// expression with the result `value` and has nothing more to do.
pub open spec fn value_dropped(
    value: Result<LoxValue, RuntimeError>,
    result: Result<Completion, RuntimeError>,
) -> bool {
    match value {
        Err(_) => same_failure(result, value),
        Ok(_) => result == Ok::<Completion, RuntimeError>(Completion::Normal),
    }
}

/// Executing a statement.
#[verifier::opaque]
pub open spec fn executed(
    before: Interpreter,
    stmt: Stmt,
    after: Interpreter,
    result: Result<Completion, RuntimeError>,
) -> bool
    decreases before.steps_left, 0nat, 0nat,
{
    if before.steps_left == 0 {
        after == before && fails_with(result, step_limit_reached())
    } else {
        match stmt {
            Stmt::Expression(expr) => exists|value: Result<LoxValue, RuntimeError>|
                #[trigger] seen(value, ()) && evaluated(spent(before), expr, after, value) && value_dropped(
                    value,
                    result,
                ),
            Stmt::Print(expr) => exists|mid: Interpreter, value: Result<LoxValue, RuntimeError>|
                #[trigger] seen(mid, value) && evaluated(spent(before), expr, mid, value)
                    && match value {
                    Err(_) => after == mid && same_failure(result, value),
                    Ok(printed) => result == Ok::<Completion, RuntimeError>(Completion::Normal)
                        && exists|line: Seq<char>|
                        #[trigger] seen(line, ()) && (!(printed is Number) ==> line == shown(
                            mid.heap,
                            printed,
                        )) && told(mid, after, print_log(mid.log@, printed, line)),
                },
            Stmt::Var { name, initializer } => match initializer {
                None => result == Ok::<Completion, RuntimeError>(Completion::Normal)
                    && after.heap.changed_at(
                    &before.heap,
                    before.environment as int,
                    name@.lexeme,
                    LoxValue::Nil,
                ) && after.on(&before, after.heap, spent(before).steps_left),
                Some(expr) => exists|mid: Interpreter, value: Result<LoxValue, RuntimeError>|
                    #[trigger] seen(mid, value) && evaluated(spent(before), expr, mid, value) && match value {
                        Err(_) => after == mid && same_failure(result, value),
                        Ok(new) => result == Ok::<Completion, RuntimeError>(Completion::Normal)
                            && after.heap.changed_at(
                            &mid.heap,
                            mid.environment as int,
                            name@.lexeme,
                            new,
                        ) && after.on(&mid, after.heap, mid.steps_left),
                    },
            },
            Stmt::Block { statements } => exists|inner: Heap|
                #[trigger] seen(inner, ()) && scope_added(before.heap, inner, before.environment) && block_executed(
                    Interpreter { heap: inner, ..spent(before) },
                    statements,
                    before.heap.envs@.len() as usize,
                    after,
                    result,
                ),
            Stmt::If { condition, then_branch, else_branch } => exists|
                mid: Interpreter,
                test: Result<LoxValue, RuntimeError>,
            |
                #[trigger] seen(mid, test) && evaluated(spent(before), condition, mid, test) && match test {
                    Err(_) => after == mid && same_failure(result, test),
                    Ok(value) => mid.steps_left < before.steps_left && if truthy(value) {
                        executed(mid, *then_branch, after, result)
                    } else {
                        match else_branch {
                            Some(other) => executed(mid, *other, after, result),
                            None => after == mid && result == Ok::<Completion, RuntimeError>(
                                Completion::Normal,
                            ),
                        }
                    },
                },
            Stmt::While { condition, body } => looped(
                spent(before),
                condition,
                *body,
                after,
                result,
            ),
            Stmt::Function(declaration) => result == Ok::<Completion, RuntimeError>(
                Completion::Normal,
            ) && after.heap.changed_at(
                &before.heap,
                before.environment as int,
                declaration.name@.lexeme,
                LoxValue::Callable(
                    LoxCallable::LoxFunction(
                        LoxFunction {
                            declaration,
                            closure: before.environment,
                            is_initializer: false,
                        },
                    ),
                ),
            ) && after.on(&before, after.heap, spent(before).steps_left),
            Stmt::Return { value_expr, .. } => match value_expr {
                None => after == spent(before) && result == Ok::<Completion, RuntimeError>(
                    Completion::Return(LoxValue::Nil),
                ),
                Some(expr) => exists|value: Result<LoxValue, RuntimeError>|
                    #[trigger] seen(value, ()) && evaluated(spent(before), expr, after, value) && match value {
                        Err(_) => same_failure(result, value),
                        Ok(given) => result == Ok::<Completion, RuntimeError>(
                            Completion::Return(given),
                        ),
                    },
            },
            Stmt::Class { name, super_class, methods } => exists|made: Result<(), RuntimeError>|
                #[trigger] seen(made, ()) && class_declared(spent(before), name, super_class, methods, after, made)
                    && match made {
                    Err(_) => same_failure(result, made),
                    Ok(_) => result == Ok::<Completion, RuntimeError>(Completion::Normal),
                },
        }
    }
}

/// The superclass that `super_class` names: the class that the variable
/// of that name is. It is an error if the variable is no class.
pub open spec fn superclass_of(before: Interpreter, super_class: Option<Token>) -> Result<
    Option<usize>,
    RuntimeErrorView,
> {
    match super_class {
        None => Ok(None),
        Some(token) => match before.variable_value(Expr::Variable { name: token }, token) {
            Err(error) => Err(error),
            Ok(LoxValue::Callable(LoxCallable::Class(class))) => Ok(Some(class)),
            Ok(_) => Err(
                RuntimeErrorView { token: token@, message: "Superclass must be a class."@ },
            ),
        },
    }
}

/// The methods of a class: the first `count` declarations of `methods`,
/// each under its name, as functions declared in the environment at
/// `closure`. A method named `init` is the initializer. Of two methods of
/// one name the later one counts.
pub open spec fn methods_made(methods: Vec<Rc<FuncDeclaration>>, closure: usize, count: int) -> Map<
    Seq<char>,
    LoxFunction,
>
    decreases count,
{
    if count <= 0 {
        Map::empty()
    } else {
        methods_made(methods, closure, count - 1).insert(
            methods[count - 1].name@.lexeme,
            LoxFunction {
                declaration: methods[count - 1],
                closure,
                is_initializer: methods[count - 1].name@.lexeme == "init"@,
            },
        )
    }
}

/// Whether `after` is `before` with the class `name` made: the class is
/// one more class, with its name, its superclass `parent` and its
/// methods, and the current environment has it under its name. A class
/// with a superclass gets one more environment, inside the current one,
/// in which `super` is the superclass; its methods are declared there,
/// those of other classes in the current environment.
pub open spec fn class_made(
    before: Interpreter,
    name: Token,
    parent: Option<usize>,
    methods: Vec<Rc<FuncDeclaration>>,
    after: Interpreter,
) -> bool {
    let place = before.heap.classes@.len() as int;
    let current = before.environment as int;
    let inner = before.heap.envs@.len() as int;
    let made = LoxValue::Callable(LoxCallable::Class(place as usize));
    &&& after.on(&before, after.heap, before.steps_left)
    &&& after.heap.instances == before.heap.instances
    &&& after.heap.classes@.len() == place + 1
    &&& forall|c: int| 0 <= c < place ==> after.heap.classes@[c] == before.heap.classes@[c]
    &&& after.heap.classes@[place].name@ == name@.lexeme
    &&& after.heap.classes@[place].super_class == parent
    &&& after.heap.classes@[place].methods@ == methods_made(
        methods,
        if parent is Some {
            inner as usize
        } else {
            before.environment
        },
        methods.len() as int,
    )
    &&& forall|i: int|
        0 <= i < inner && i != current ==> after.heap.envs@[i] == before.heap.envs@[i]
    &&& after.heap.envs@[current].enclosing == before.heap.envs@[current].enclosing
    &&& match parent {
        None => after.heap.envs@.len() == inner && after.heap.envs@[current].values@
            == before.heap.envs@[current].values@.insert(name@.lexeme, made),
        Some(class) => after.heap.envs@.len() == inner + 1 && after.heap.envs@[inner].enclosing
            == Some(before.environment) && if name@.lexeme == "super"@ {
            after.heap.envs@[current].values@ == before.heap.envs@[current].values@.insert(
                name@.lexeme,
                LoxValue::Nil,
            ) && after.heap.envs@[inner].values@ == Map::<Seq<char>, LoxValue>::empty().insert(
                "super"@,
                made,
            )
        } else {
            after.heap.envs@[current].values@ == before.heap.envs@[current].values@.insert(
                name@.lexeme,
                made,
            ) && after.heap.envs@[inner].values@ == Map::<Seq<char>, LoxValue>::empty().insert(
                "super"@,
                LoxValue::Callable(LoxCallable::Class(class)),
            )
        },
    }
}

/// A class statement: the superclass, if one is named, must be a class.
/// Then the class is made and defined under its name.
pub open spec fn class_declared(
    before: Interpreter,
    name: Token,
    super_class: Option<Token>,
    methods: Vec<Rc<FuncDeclaration>>,
    after: Interpreter,
    result: Result<(), RuntimeError>,
) -> bool {
    match superclass_of(before, super_class) {
        Err(error) => after == before && fails_with(result, error),
        Ok(parent) => result is Ok && class_made(before, name, parent, methods, after),
    }
}

/// The statements of `statements` from index `from` on are executed in
/// order, each with the whole limit of steps. One that fails does not stop
/// the next: the host is handed its diagnostic.
pub open spec fn interpreted(
    before: Interpreter,
    statements: Vec<Stmt>,
    from: int,
    after: Interpreter,
) -> bool
    decreases statements.len() - from,
{
    if 0 <= from < statements.len() {
        exists|mid: Interpreter, ended: Result<Completion, RuntimeError>, next: Interpreter|
            #[trigger] seen(mid, (ended, next)) && executed(
                Interpreter { steps_left: before.step_limit, ..before },
                statements[from],
                mid,
                ended,
            ) && told(mid, next, report_log(mid.log@, ended)) && interpreted(
                next,
                statements,
                from + 1,
                after,
            )
    } else {
        after == before
    }
}

} // verus!
