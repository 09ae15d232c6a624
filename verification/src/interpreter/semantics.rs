//! What evaluation gives where neither the host nor the heap is needed to
//! say it.
//!
//! An expression made of literals that are no numbers, of variables, of
//! `this`, of groupings, of the unary and the logical operators, and of
//! the binary operators that compare, has a value that the interpreter
//! finds without the host and without changing the heap. [`pure`] is that
//! value, with the steps that are left after finding it.
use vstd::prelude::*;
use crate::ast::{Expr, LiteralValue};
use crate::bindings::{distance, Bindings};
use crate::interpreter::class::find_method_spec;
use crate::interpreter::environment::{ancestor, holder, lookup, lookup_at, undefined, Heap};
use crate::interpreter::error::{quoted, RuntimeError, RuntimeErrorView};
use crate::interpreter::operators::{
    binary_plan, decided_by_left, matches_result, unary_result, BinaryPlanView,
};
use crate::interpreter::values::{truthy, LoxCallable, LoxFunction, LoxValue};
use crate::interpreter::{Interpreter, GLOBALS};
use crate::token::{Token, TokenType, TokenView};

verus! {

/// What an expression is evaluated in: the heap, the current environment,
/// and the distances of the references.
pub struct Scene {
    pub heap: Heap,
    pub environment: usize,
    pub locals: Bindings,
}

/// A result with the steps that are left after it.
pub struct Pure {
    pub result: Result<LoxValue, RuntimeErrorView>,
    pub steps: u64,
}

/// The error of an evaluation that has no step left.
pub open spec fn step_limit_reached() -> RuntimeErrorView {
    RuntimeErrorView {
        token: TokenView { id: 0, typ: TokenType::Eof, lexeme: Seq::empty(), line: 0 },
        message: "Step limit reached."@,
    }
}

impl Scene {
    /// The value of the variable that `expr` refers to by the name `name`:
    /// where a distance is recorded for the expression, the value that the
    /// environment at that distance has for the name; else the value of the
    /// global of that name. It is an error if there is no such value.
    pub open spec fn value_of(self, expr: Expr, name: Token) -> Result<LoxValue, RuntimeErrorView> {
        let found = match distance(self.locals@, expr) {
            Some(depth) => lookup_at(
                self.heap.envs@,
                self.environment as int,
                depth as nat,
                name@.lexeme,
            ),
            None => lookup(self.heap.envs@, GLOBALS as int, name@.lexeme),
        };
        match found {
            Some(value) => Ok(value),
            None => Err(undefined(name)),
        }
    }
}

/// What a unary operator makes of its operand: an operand that failed is
/// the failure, and a value is what the operator gives for it.
pub open spec fn after_operand(operator: Token, operand: Option<Pure>) -> Option<Pure> {
    match operand {
        Some(found) => match found.result {
            Ok(value) => Some(Pure { result: unary_result(operator, value), steps: found.steps }),
            Err(_) => Some(found),
        },
        None => None,
    }
}

/// What a logical operator does after its left operand.
pub enum Turn {
    /// The result is settled.
    Done(Pure),
    /// The right operand is the result.
    Right,
}

/// What a logical operator does after its left operand: a failure is the
/// result, and so is a value that decides; else the right operand is
/// evaluated.
pub open spec fn logical_turn(operator: Token, left: Pure) -> Turn {
    match left.result {
        Err(_) => Turn::Done(left),
        Ok(value) => match decided_by_left(operator, value) {
            Err(error) => Turn::Done(Pure { result: Err(error), steps: left.steps }),
            Ok(decided) => if decided {
                Turn::Done(left)
            } else {
                Turn::Right
            },
        },
    }
}

/// What a binary operator gives for two values where the host is not
/// needed and no string is made: a truth value, or a failure.
pub open spec fn planned(operator: Token, plan: BinaryPlanView, steps: u64) -> Option<Pure> {
    match plan {
        BinaryPlanView::Boolean(value) => Some(Pure { result: Ok(LoxValue::Boolean(value)), steps }),
        BinaryPlanView::Fail(message) => Some(
            Pure { result: Err(RuntimeErrorView { token: operator@, message }), steps },
        ),
        _ => None,
    }
}

/// What evaluating `expr` in `scene` with `steps` steps gives, where that
/// needs neither the host nor a change of the heap. Every expression
/// evaluated takes one step, and without a step left evaluation fails.
#[verifier::opaque]
pub open spec fn pure(scene: Scene, expr: Expr, steps: u64) -> Option<Pure>
    decreases expr,
{
    if steps == 0 {
        Some(Pure { result: Err(step_limit_reached()), steps: 0 })
    } else {
        let left = (steps - 1) as u64;
        match expr {
            Expr::Literal { value: LiteralValue::Nil } => Some(
                Pure { result: Ok(LoxValue::Nil), steps: left },
            ),
            Expr::Literal { value: LiteralValue::Boolean(b) } => Some(
                Pure { result: Ok(LoxValue::Boolean(b)), steps: left },
            ),
            Expr::Literal { value: LiteralValue::Text(text) } => Some(
                Pure { result: Ok(LoxValue::String(text)), steps: left },
            ),
            Expr::Variable { name } => Some(
                Pure { result: scene.value_of(expr, name), steps: left },
            ),
            Expr::This { keyword } => Some(
                Pure { result: scene.value_of(expr, keyword), steps: left },
            ),
            Expr::Grouping { expression } => pure(scene, *expression, left),
            Expr::Unary { operator, right } => after_operand(operator, pure(scene, *right, left)),
            Expr::Logical { left: first, operator, right } => match pure(scene, *first, left) {
                Some(found) => match logical_turn(operator, found) {
                    Turn::Done(settled) => Some(settled),
                    Turn::Right => pure(scene, *right, found.steps),
                },
                None => None,
            },
            Expr::Binary { left: first, operator, right } => match pure(scene, *first, left) {
                Some(found) => match found.result {
                    Err(_) => Some(found),
                    Ok(a) => match pure(scene, *right, found.steps) {
                        Some(second) => match second.result {
                            Err(_) => Some(second),
                            Ok(b) => planned(
                                operator,
                                binary_plan(operator.typ, a, b),
                                second.steps,
                            ),
                        },
                        None => None,
                    },
                },
                None => None,
            },
            _ => None,
        }
    }
}

/// The values of the expressions of `exprs` from index `from` on, after
/// the values `before`, where none of them needs the host or changes the
/// heap; or the failure of the first that fails.
pub struct PureAll {
    pub result: Result<Seq<LoxValue>, RuntimeErrorView>,
    pub steps: u64,
}

/// The values of the expressions of `exprs` from index `from` on, in
/// order, after the values `before`.
pub open spec fn pure_all(
    scene: Scene,
    exprs: Vec<Expr>,
    from: int,
    steps: u64,
    before: Seq<LoxValue>,
) -> Option<PureAll>
    decreases exprs.len() - from,
{
    if 0 <= from < exprs.len() {
        match pure(scene, exprs[from], steps) {
            Some(found) => match found.result {
                Ok(value) => pure_all(scene, exprs, from + 1, found.steps, before.push(value)),
                Err(error) => Some(PureAll { result: Err(error), steps: found.steps }),
            },
            None => None,
        }
    } else {
        Some(PureAll { result: Ok(before), steps })
    }
}

/// Whether `result` is what a binary operator makes of the plan `plan`:
/// a number where the host computes, and else what is planned.
pub open spec fn performed(
    result: Result<LoxValue, RuntimeError>,
    operator: Token,
    plan: BinaryPlanView,
) -> bool {
    match plan {
        BinaryPlanView::Compute(_, _, _) => result matches Ok(LoxValue::Number(_)),
        BinaryPlanView::Boolean(value) => result == Ok::<LoxValue, RuntimeError>(
            LoxValue::Boolean(value),
        ),
        BinaryPlanView::Text(text) => result matches Ok(LoxValue::String(joined)) && joined@
            == text,
        BinaryPlanView::Fail(message) => result matches Err(error) && error@ == (
        RuntimeErrorView { token: operator@, message }),
    }
}

/// Whether `result` is the failure `error`.
pub open spec fn fails_with<T>(result: Result<T, RuntimeError>, error: RuntimeErrorView) -> bool {
    result matches Err(found) && found@ == error
}

/// The method that `super.method` names and the instance it is bound to:
/// the superclass is what `super` is at the distance of the expression,
/// the instance is what `this` is one environment further in, and the
/// method is the one that the superclass has under the name.
pub open spec fn super_method(scene: Scene, expr: Expr, keyword: Token, method: Token) -> Result<
    (LoxFunction, usize),
    RuntimeErrorView,
> {
    match distance(scene.locals@, expr) {
        None => Err(undefined(keyword)),
        Some(depth) => match lookup_at(
            scene.heap.envs@,
            scene.environment as int,
            depth as nat,
            "super"@,
        ) {
            Some(LoxValue::Callable(LoxCallable::Class(class))) => if depth == 0 {
                Err(undefined(keyword))
            } else {
                match lookup_at(
                    scene.heap.envs@,
                    scene.environment as int,
                    (depth - 1) as nat,
                    "this"@,
                ) {
                    Some(LoxValue::Instance(instance)) => match find_method_spec(
                        scene.heap.classes@,
                        class as int,
                        method@.lexeme,
                    ) {
                        Some(found) => Ok((found, instance)),
                        None => Err(
                            RuntimeErrorView {
                                token: method@,
                                message: quoted("Undefined property"@, method@.lexeme),
                            },
                        ),
                    },
                    _ => Err(undefined(keyword)),
                }
            },
            _ => Err(undefined(keyword)),
        },
    }
}

/// Whether `after` is `before` with one more environment, the one of
/// `bound`: inside the environment of `method`, with `this` the instance at
/// `instance`; and `bound` is `method` in that environment.
pub open spec fn bound_to(
    before: Heap,
    after: Heap,
    method: LoxFunction,
    instance: usize,
    bound: LoxFunction,
) -> bool {
    &&& bound.declaration == method.declaration
    &&& bound.is_initializer == method.is_initializer
    &&& bound.closure == before.envs@.len()
    &&& after.envs@.len() == before.envs@.len() + 1
    &&& after.envs@[bound.closure as int].enclosing == Some(method.closure)
    &&& after.envs@[bound.closure as int].values@ == Map::<Seq<char>, LoxValue>::empty().insert(
        "this"@,
        LoxValue::Instance(instance),
    )
    &&& forall|i: int| 0 <= i < before.envs@.len() ==> after.envs@[i] == before.envs@[i]
    &&& after.classes == before.classes
    &&& after.instances == before.instances
}

/// Whether `result` and `after` are what reading the property `name` of
/// the instance at `instance` in `before` gives: the field of that name
/// and the same heap; or else the method of that name, bound to the
/// instance in one more environment; or else an error and the same heap.
pub open spec fn got(
    before: Heap,
    after: Heap,
    instance: usize,
    name: Token,
    result: Result<LoxValue, RuntimeError>,
) -> bool {
    if before.instances@[instance as int].fields@.contains_key(name@.lexeme) {
        result == Ok::<LoxValue, RuntimeError>(
            before.instances@[instance as int].fields@[name@.lexeme],
        ) && after == before
    } else {
        match find_method_spec(
            before.classes@,
            before.instances@[instance as int].class as int,
            name@.lexeme,
        ) {
            Some(method) => {
                &&& result matches Ok(LoxValue::Callable(LoxCallable::LoxFunction(bound)))
                &&& bound_to(before, after, method, instance, bound)
            },
            None => fails_with(
                result,
                RuntimeErrorView {
                    token: name@,
                    message: quoted("Undefined property"@, name@.lexeme),
                },
            ) && after == before,
        }
    }
}

/// Whether `after` is `before` but for the instance at `instance`, whose
/// field `name` is now `value`.
pub open spec fn field_set(before: Heap, after: Heap, instance: usize, name: Token, value: LoxValue) -> bool {
    &&& after.instances@.len() == before.instances@.len()
    &&& after.instances@[instance as int].class == before.instances@[instance as int].class
    &&& after.instances@[instance as int].fields@ == before.instances@[instance as int].fields@.insert(
        name@.lexeme,
        value,
    )
    &&& forall|k: int|
        0 <= k < before.instances@.len() && k != instance ==> after.instances@[k]
            == before.instances@[k]
    &&& after.envs == before.envs
    &&& after.classes == before.classes
}

/// Whether `after` is `before` with one more instance, of the class at
/// `class`, without fields.
pub open spec fn instance_added(before: Heap, after: Heap, class: usize) -> bool {
    &&& after.instances@.len() == before.instances@.len() + 1
    &&& after.instances@[before.instances@.len() as int].class == class
    &&& after.instances@[before.instances@.len() as int].fields@ == Map::<
        Seq<char>,
        LoxValue,
    >::empty()
    &&& forall|k: int|
        0 <= k < before.instances@.len() ==> after.instances@[k] == before.instances@[k]
    &&& after.envs == before.envs
    &&& after.classes == before.classes
}

/// Whether `after` is `before` with one more environment, inside the one
/// at `enclosing`, without variables.
pub open spec fn scope_added(before: Heap, after: Heap, enclosing: usize) -> bool {
    &&& after.envs@.len() == before.envs@.len() + 1
    &&& after.envs@[before.envs@.len() as int].enclosing == Some(enclosing)
    &&& after.envs@[before.envs@.len() as int].values@ == Map::<Seq<char>, LoxValue>::empty()
    &&& forall|i: int| 0 <= i < before.envs@.len() ==> after.envs@[i] == before.envs@[i]
    &&& after.classes == before.classes
    &&& after.instances == before.instances
}

/// Where an assignment to the variable that `expr` refers to by the name
/// `name` goes: where a distance is recorded for the expression, to the
/// environment at that distance; else to the first environment from the
/// globals on that has the name.
pub open spec fn target(scene: Scene, expr: Expr, name: Token) -> Option<int> {
    match distance(scene.locals@, expr) {
        Some(depth) => ancestor(scene.heap.envs@, scene.environment as int, depth as nat),
        None => holder(scene.heap.envs@, GLOBALS as int, name@.lexeme),
    }
}

/// Whether `result` and `after` are what assigning `value` to the variable
/// that `expr` refers to by the name `name` gives: the value, and the heap
/// in which the variable has it; or, where the assignment has nowhere to
/// go, an error and the same heap.
pub open spec fn assigned(
    scene: Scene,
    after: Heap,
    expr: Expr,
    name: Token,
    value: LoxValue,
    result: Result<LoxValue, RuntimeError>,
) -> bool {
    match target(scene, expr, name) {
        Some(at) => result == Ok::<LoxValue, RuntimeError>(value) && after.changed_at(
            &scene.heap,
            at,
            name@.lexeme,
            value,
        ),
        None => fails_with(result, undefined(name)) && after == scene.heap,
    }
}

impl Interpreter {
    /// What the interpreter evaluates expressions in.
    pub open spec fn scene(&self) -> Scene {
        Scene { heap: self.heap, environment: self.environment, locals: self.locals }
    }

    /// `self` is `before` with `steps` steps left.
    pub open spec fn at(&self, before: &Interpreter, steps: u64) -> bool {
        *self == (Interpreter { steps_left: steps, ..*before })
    }

    /// `self` is `before` with the heap `heap` and `steps` steps left.
    pub open spec fn on(&self, before: &Interpreter, heap: Heap, steps: u64) -> bool {
        *self == (Interpreter { heap, steps_left: steps, ..*before })
    }

    /// Whether `self` and `result` are what `expected` says of an
    /// evaluation that started in `before`: the result is the one expected,
    /// and nothing but the steps has changed. Where nothing is expected,
    /// nothing is said.
    pub open spec fn gives(
        &self,
        before: &Interpreter,
        result: Result<LoxValue, RuntimeError>,
        expected: Option<Pure>,
    ) -> bool {
        match expected {
            Some(found) => self.at(before, found.steps) && matches_result(result, found.result),
            None => true,
        }
    }
}

} // verus!
