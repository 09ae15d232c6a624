//! The interpreter: it walks the statements and evaluates them.
//!
//! The interpreter computes with what it has: environments, functions,
//! classes, instances, truth values, strings, and the order of numbers.
//! What it has not is handed to it by a [`Host`]: arithmetic on numbers and
//! their text, the clock, and where printed lines go. Whatever the host
//! answers, the interpreter keeps its heap well-formed and comes back to
//! the environment that it started in.
//!
//! What each function does is said by a relation of [`meaning`] between the
//! interpreter before, the interpreter after, and the result. Where an
//! expression needs neither the host nor a change of the heap, its value is
//! the function [`semantics::pure`] of the expression.
//!
//! A program may run forever. The interpreter counts its steps, one for
//! every statement executed and every expression evaluated, and stops a
//! top-level statement with an error when the count reaches its limit.
use std::rc::Rc;
use vstd::prelude::*;
use vstd::string::StringExecFns;
use crate::ast::{Expr, FuncDeclaration, LiteralValue, Stmt};
use crate::bindings::{bind, distance, Bindings};
use crate::guard::{release, Scoped};
use crate::number::Number;
use crate::table::Table;
use crate::text::str_eq;
use crate::token::{Token, TokenType};

pub mod callables;
pub mod class;
pub mod environment;
pub mod error;
pub mod instance;
pub mod meaning;
pub mod operators;
pub mod semantics;
pub mod values;

pub use callables::{callable_arity, CLOCK_NAME};
pub use class::LoxClass;
pub use environment::{Environment, Heap};
pub use error::{RuntimeError, RuntimeErrorView};
pub use instance::LoxInstance;
pub use operators::{
    apply_unary, check_arity, plan_binary, short_circuits, Arithmetic, BinaryPlan,
};
pub use semantics::{pure, Pure, Scene};
pub use values::{LoxCallable, LoxFunction, LoxValue};

verus! {

/// What the interpreter takes from its surroundings. Nothing is assumed of
/// the answers.
pub trait Host {
    /// The number that the digits of a literal stand for.
    fn number(&mut self, digits: &str) -> Number;

    /// The result of an arithmetic operation on two numbers.
    fn compute(&mut self, operation: Arithmetic, left: Number, right: Number) -> Number;

    /// The text of a number.
    fn show(&mut self, number: Number) -> String;

    /// The time in whole seconds since a fixed moment, or why it cannot be
    /// had.
    fn clock(&mut self) -> Result<Number, String>;

    /// Takes a line that the program prints.
    fn print(&mut self, line: &str);

    /// Takes the diagnostic of an error that stopped a statement.
    fn report(&mut self, line: &str);
}

/// How a statement ended: it ran to its end, or it returned a value from
/// the function around it.
#[derive(Debug)]
pub enum Completion {
    Normal,
    Return(LoxValue),
}

/// The interpreter: the heap, the place of the current environment, the
/// distances that the resolver found, and the count of steps. For the
/// contracts it also keeps what has passed between it and the host.
pub struct Interpreter {
    pub heap: Heap,
    pub environment: usize,
    pub locals: Bindings,
    pub steps_left: u64,
    pub step_limit: u64,
    /// What has passed between the interpreter and the host so far.
    pub log: Ghost<Seq<meaning::Exchange>>,
}

/// The place of the global environment.
pub const GLOBALS: usize = 0;

/// The error for a statement that took more steps than the limit.
pub fn out_of_steps() -> (error: RuntimeError)
    ensures
        error@ == semantics::step_limit_reached(),
{
    RuntimeError::new(
        Token::new(0, TokenType::Eof, String::new(), 0),
        String::from_str("Step limit reached."),
    )
}

/// The error of the clock when the host cannot give the time for the
/// reason `reason`.
pub open spec fn clock_failure(reason: Seq<char>) -> RuntimeErrorView {
    RuntimeErrorView {
        token: crate::token::TokenView {
            id: 0,
            typ: TokenType::Fun,
            lexeme: CLOCK_NAME@,
            line: 0,
        },
        message: "Error while calling system time: "@ + reason,
    }
}

/// Whether all of `values` are well-formed in `heap`.
pub open spec fn all_ok(heap: Heap, values: Seq<LoxValue>) -> bool {
    forall|k: int| 0 <= k < values.len() ==> heap.ok(#[trigger] values[k])
}

/// The text that a value other than a number is shown as.
pub open spec fn shown(heap: Heap, value: LoxValue) -> Seq<char> {
    match value {
        LoxValue::Nil => "Nil"@,
        LoxValue::Boolean(value) => if value {
            "true"@
        } else {
            "false"@
        },
        LoxValue::Number(_) => Seq::empty(),
        LoxValue::String(text) => text@,
        LoxValue::Callable(LoxCallable::Clock) => "<native fn>"@,
        LoxValue::Callable(LoxCallable::LoxFunction(function)) => "<fn "@
            + function.declaration.name@.lexeme + ">"@,
        LoxValue::Callable(LoxCallable::Class(class)) => if class < heap.classes@.len() {
            heap.classes@[class as int].name@
        } else {
            Seq::empty()
        },
        LoxValue::Instance(instance) => if instance < heap.instances@.len()
            && heap.instances@[instance as int].class < heap.classes@.len() {
            heap.classes@[heap.instances@[instance as int].class as int].name@ + " instance"@
        } else {
            Seq::empty()
        },
    }
}

impl Scoped for Interpreter {
    type Mark = usize;

    open spec fn admits(&self, mark: &usize) -> bool {
        *mark < self.heap.envs@.len()
    }

    open spec fn left(&self, mark: &usize, after: &Interpreter) -> bool {
        &&& after.environment == *mark
        &&& after.heap == self.heap
        &&& after.locals == self.locals
        &&& after.steps_left == self.steps_left
        &&& after.step_limit == self.step_limit
        &&& after.log == self.log
    }

    fn leave(&mut self, mark: usize) {
        self.environment = mark;
    }
}

impl Interpreter {
    /// The heap is well-formed and the current environment exists.
    pub open spec fn wf(&self) -> bool {
        self.heap.wf() && self.environment < self.heap.envs@.len()
    }

    /// What holds of the interpreter after any evaluation that started in
    /// `before`: it is well-formed, its heap comes after the one of before,
    /// it is back in the environment it started in, the distances are as
    /// they were, and no steps were given back.
    pub open spec fn follows(&self, before: &Interpreter) -> bool {
        &&& self.wf()
        &&& self.heap.extends(&before.heap)
        &&& self.environment == before.environment
        &&& self.locals == before.locals
        &&& self.steps_left <= before.steps_left
        &&& self.step_limit == before.step_limit
    }

    /// The value of the variable that `expr` refers to by the name `name`:
    /// where a distance is recorded for the expression, the value that the
    /// environment at that distance has for the name; else the value of the
    /// global of that name. It is an error if there is no such value.
    pub open spec fn variable_value(&self, expr: Expr, name: Token) -> Result<
        LoxValue,
        RuntimeErrorView,
    > {
        self.scene().value_of(expr, name)
    }

    /// `self` is `before` after one step.
    pub open spec fn stepped(&self, before: &Interpreter) -> bool {
        before.steps_left > 0 && *self == (Interpreter {
            steps_left: (before.steps_left - 1) as u64,
            ..*before
        })
    }

    /// An interpreter whose globals hold the clock and nothing else, with
    /// the largest step limit.
    pub fn new() -> (interpreter: Interpreter)
        ensures
            interpreter.wf(),
            interpreter.environment == GLOBALS,
            interpreter.heap.envs@.len() == 1,
            interpreter.heap.envs@[0].values@ == Map::<Seq<char>, LoxValue>::empty().insert(
                CLOCK_NAME@,
                LoxValue::Callable(LoxCallable::Clock),
            ),
            interpreter.locals@ == Map::<u64, usize>::empty(),
            interpreter.step_limit == u64::MAX,
            interpreter.log@ == Seq::<meaning::Exchange>::empty(),
    {
        let mut heap = Heap::new();
        heap.define(GLOBALS, String::from_str(CLOCK_NAME), LoxValue::Callable(LoxCallable::Clock));
        Interpreter {
            heap,
            environment: GLOBALS,
            locals: Bindings::new(),
            steps_left: u64::MAX,
            step_limit: u64::MAX,
            log: Ghost(Seq::empty()),
        }
    }

    /// Whether the interpreter is well-formed. Whoever did not get it from
    /// the functions of this module can find out here.
    pub fn check(&self) -> (r: bool)
        ensures
            r == self.wf(),
    {
        self.heap.check() && self.environment < self.heap.envs.len()
    }

    /// Sets how many steps a top-level statement may take.
    pub fn set_step_limit(&mut self, limit: u64)
        ensures
            *final(self) == (Interpreter { step_limit: limit, ..*old(self) }),
    {
        self.step_limit = limit;
    }

    /// Records that `expr` stands `depth` scopes from the declaration of
    /// the variable it refers to.
    pub fn resolve(&mut self, expr: &Expr, depth: usize)
        ensures
            final(self).locals@ == bind(old(self).locals@, *expr, depth),
            final(self).heap == old(self).heap,
            final(self).environment == old(self).environment,
            final(self).steps_left == old(self).steps_left,
            final(self).step_limit == old(self).step_limit,
    {
        self.locals.resolve(expr, depth);
    }

    /// Executes `stmts` in order. An error stops the statement that it
    /// occurs in, is handed to the host, and the next statement runs.
    pub fn interpret<H: Host>(&mut self, host: &mut H, stmts: &Vec<Stmt>)
        requires
            old(self).wf(),
        ensures
            final(self).wf(),
            final(self).heap.extends(&old(self).heap),
            final(self).environment == old(self).environment,
            final(self).locals == old(self).locals,
            final(self).step_limit == old(self).step_limit,
            meaning::interpreted(*old(self), *stmts, 0, *final(self)),
    {
        let mut i: usize = 0;
        while i < stmts.len()
            invariant
                i <= stmts.len(),
                self.wf(),
                self.heap.extends(&old(self).heap),
                self.environment == old(self).environment,
                self.locals == old(self).locals,
                self.step_limit == old(self).step_limit,
                forall|after: Interpreter| #[trigger]
                    meaning::interpreted(*self, *stmts, i as int, after) ==> meaning::interpreted(
                        *old(self),
                        *stmts,
                        0,
                        after,
                    ),
            decreases stmts.len() - i,
        {
            let ghost start = *self;
            self.steps_left = self.step_limit;
            let outcome = self.execute(host, &stmts[i]);
            let ghost ended = outcome;
            let ghost mid = *self;
            match outcome {
                Ok(_) => {},
                Err(err) => {
                    let line = err.to_string();
                    host.report(line.as_str());
                    self.log = Ghost(self.log@.push(meaning::Exchange::Report { line: line@ }));
                },
            }
            let ghost next = *self;
            assert forall|after: Interpreter| #[trigger]
                meaning::interpreted(next, *stmts, i + 1, after) implies meaning::interpreted(
                *old(self),
                *stmts,
                0,
                after,
            ) by {
                assert(meaning::seen(mid, (ended, next)));
                assert(meaning::executed(
                    Interpreter { steps_left: start.step_limit, ..start },
                    stmts[i as int],
                    mid,
                    ended,
                ));
                assert(meaning::interpreted(start, *stmts, i as int, after));
            }
            i += 1;
        }
        assert(meaning::interpreted(*self, *stmts, i as int, *self));
    }

    /// The text that `value` is shown as. The text of a number is the
    /// host's.
    pub fn display<H: Host>(&self, host: &mut H, value: &LoxValue) -> (text: String)
        ensures
            !(value is Number) ==> text@ == shown(self.heap, *value),
    {
        match value {
            LoxValue::Nil => String::from_str("Nil"),
            LoxValue::Boolean(value) => if *value {
                String::from_str("true")
            } else {
                String::from_str("false")
            },
            LoxValue::Number(number) => host.show(*number),
            LoxValue::String(text) => text.clone(),
            LoxValue::Callable(LoxCallable::Clock) => String::from_str("<native fn>"),
            LoxValue::Callable(LoxCallable::LoxFunction(function)) => function.to_string(),
            LoxValue::Callable(LoxCallable::Class(class)) => if *class < self.heap.classes.len() {
                self.heap.classes[*class].to_string()
            } else {
                String::new()
            },
            LoxValue::Instance(instance) => {
                if *instance < self.heap.instances.len() {
                    let class = self.heap.instances[*instance].class;
                    if class < self.heap.classes.len() {
                        let mut text = self.heap.classes[class].to_string();
                        text.append(" instance");
                        return text;
                    }
                }
                String::new()
            },
        }
    }

    /// Uses up one step, if one is left.
    fn step(&mut self) -> (result: Result<(), RuntimeError>)
        ensures
            match result {
                Ok(()) => final(self).stepped(old(self)),
                Err(error) => old(self).steps_left == 0 && *final(self) == *old(self) && error@
                    == semantics::step_limit_reached(),
            },
    {
        if self.steps_left == 0 {
            return Err(out_of_steps());
        }
        self.steps_left = self.steps_left - 1;
        Ok(())
    }

    /// Executes one statement.
    pub fn execute<H: Host>(&mut self, host: &mut H, stmt: &Stmt) -> (result: Result<
        Completion,
        RuntimeError,
    >)
        requires
            old(self).wf(),
        ensures
            final(self).follows(old(self)),
            meaning::executed(*old(self), *stmt, *final(self), result),
            result matches Ok(Completion::Return(value)) ==> final(self).heap.ok(value),
            result is Ok ==> final(self).steps_left < old(self).steps_left,
            old(self).steps_left == 0 ==> result is Err && *final(self) == *old(self),
        decreases old(self).steps_left, 0nat,
    {
        proof {
            reveal(meaning::executed);
            reveal(meaning::evaluated);
            reveal(meaning::looped);
            reveal(meaning::block_executed);
        }
        match self.step() {
            Err(e) => {
                return Err(e);
            },
            Ok(()) => {},
        }
        let ghost start = *self;
        match stmt {
            Stmt::Expression(expr) => {
                // The value of an expression statement is not needed.
                let answer = self.evaluate(host, expr);
                let ghost value = answer;
                let result = match answer {
                    Err(e) => Err(e),
                    Ok(_) => Ok(Completion::Normal),
                };
                assert(meaning::executed(*old(self), *stmt, *self, result)) by {
                    assert(meaning::seen(value, ()));
                }
                result
            },
            Stmt::Print(expr) => {
                let answer = self.evaluate(host, expr);
                let ghost value = answer;
                let ghost mid = *self;
                let result = match answer {
                    Err(e) => Err(e),
                    Ok(printed) => {
                        let line = self.display(host, &printed);
                        host.print(line.as_str());
                        self.log = Ghost(meaning::print_log(self.log@, printed, line@));
                        assert(meaning::seen(line@, ()));
                        Ok(Completion::Normal)
                    },
                };
                assert(meaning::executed(*old(self), *stmt, *self, result)) by {
                    assert(meaning::seen(mid, value));
                }
                result
            },
            Stmt::Var { name, initializer } => {
                match initializer {
                    Some(expr) => {
                        let answer = self.evaluate(host, expr);
                        let ghost value = answer;
                        let ghost mid = *self;
                        let result = match answer {
                            Err(e) => Err(e),
                            Ok(fresh) => {
                                self.heap.define(self.environment, name.lexeme.clone(), fresh);
                                Ok(Completion::Normal)
                            },
                        };
                        assert(meaning::executed(*old(self), *stmt, *self, result)) by {
                            assert(meaning::seen(mid, value));
                        }
                        result
                    },
                    None => {
                        self.heap.define(self.environment, name.lexeme.clone(), LoxValue::Nil);
                        Ok(Completion::Normal)
                    },
                }
            },
            Stmt::Block { statements } => {
                let env = Environment::with_enclosing(&mut self.heap, self.environment);
                let ghost inner = self.heap;
                let result = self.execute_block(host, statements, env);
                assert(meaning::executed(*old(self), *stmt, *self, result)) by {
                    assert(meaning::seen(inner, ()));
                    assert(semantics::scope_added(old(self).heap, inner, old(self).environment));
                }
                result
            },
            Stmt::If { condition, then_branch, else_branch } => {
                let answer = self.evaluate(host, condition);
                let ghost test = answer;
                let ghost mid = *self;
                let result = match answer {
                    Err(e) => Err(e),
                    Ok(value) => {
                        if value.is_truthy() {
                            self.execute(host, then_branch)
                        } else {
                            match else_branch {
                                Some(other) => self.execute(host, other),
                                None => Ok(Completion::Normal),
                            }
                        }
                    },
                };
                assert(meaning::executed(*old(self), *stmt, *self, result)) by {
                    assert(meaning::seen(mid, test));
                }
                result
            },
            Stmt::While { condition, body } => self.execute_while(host, condition, body),
            Stmt::Function(declaration) => {
                let function = LoxFunction::new(values::share(declaration), self.environment, false);
                self.heap.define(
                    self.environment,
                    declaration.name.lexeme.clone(),
                    LoxValue::Callable(LoxCallable::LoxFunction(function)),
                );
                Ok(Completion::Normal)
            },
            Stmt::Return { keyword: _, value_expr } => {
                match value_expr {
                    Some(expr) => {
                        let answer = self.evaluate(host, expr);
                        let ghost value = answer;
                        let result = match answer {
                            Err(e) => Err(e),
                            Ok(value) => Ok(Completion::Return(value)),
                        };
                        assert(meaning::executed(*old(self), *stmt, *self, result)) by {
                            assert(meaning::seen(value, ()));
                        }
                        result
                    },
                    None => Ok(Completion::Return(LoxValue::Nil)),
                }
            },
            Stmt::Class { name, super_class, methods } => {
                let outcome = self.evaluate_class(host, name, super_class, methods);
                let ghost made = outcome;
                let result = match outcome {
                    Err(e) => Err(e),
                    Ok(()) => Ok(Completion::Normal),
                };
                assert(meaning::executed(*old(self), *stmt, *self, result)) by {
                    assert(meaning::seen(made, ()));
                }
                result
            },
        }
    }

    /// Executes `body` as long as `condition` counts as true.
    fn execute_while<H: Host>(&mut self, host: &mut H, condition: &Expr, body: &Stmt) -> (result:
        Result<Completion, RuntimeError>)
        requires
            old(self).wf(),
        ensures
            final(self).follows(old(self)),
            meaning::looped(*old(self), *condition, *body, *final(self), result),
            result matches Ok(Completion::Return(value)) ==> final(self).heap.ok(value),
        decreases old(self).steps_left, 1nat,
    {
        proof {
            reveal(meaning::looped);
            reveal(meaning::evaluated);
            reveal(meaning::executed);
        }
        loop
            invariant
                self.follows(old(self)),
                self.wf(),
                forall|after: Interpreter, ended: Result<Completion, RuntimeError>|
                    #[trigger] meaning::looped(*self, *condition, *body, after, ended)
                        ==> meaning::looped(*old(self), *condition, *body, after, ended),
            decreases self.steps_left,
        {
            proof {
                reveal(meaning::looped);
                reveal(meaning::evaluated);
                reveal(meaning::executed);
            }
            let ghost start = *self;
            let answer = self.evaluate(host, condition);
            let ghost test = answer;
            let ghost mid = *self;
            match answer {
                Err(e) => {
                    let result = Err(e);
                    assert(meaning::looped(start, *condition, *body, mid, result)) by {
                        assert(meaning::seen(mid, test));
                        assert(meaning::evaluated(start, *condition, mid, test));
                    }
                    return result;
                },
                Ok(value) => {
                    if !value.is_truthy() {
                        let result = Ok(Completion::Normal);
                        assert(meaning::looped(start, *condition, *body, mid, result)) by {
                            assert(meaning::seen(mid, test));
                            assert(meaning::evaluated(start, *condition, mid, test));
                        }
                        return result;
                    }
                },
            }
            let outcome = self.execute(host, body);
            let ghost ended = outcome;
            let ghost next = *self;
            match outcome {
                Err(e) => {
                    let result = Err(e);
                    assert(meaning::looped(start, *condition, *body, next, result)) by {
                        assert(meaning::seen(mid, test));
                        assert(meaning::evaluated(start, *condition, mid, test));
                        assert(meaning::seen(next, ended));
                        assert(meaning::executed(mid, *body, next, ended));
                    }
                    return result;
                },
                Ok(Completion::Return(value)) => {
                    let result = Ok(Completion::Return(value));
                    assert(meaning::looped(start, *condition, *body, next, result)) by {
                        assert(meaning::seen(mid, test));
                        assert(meaning::evaluated(start, *condition, mid, test));
                        assert(meaning::seen(next, ended));
                        assert(meaning::executed(mid, *body, next, ended));
                    }
                    return result;
                },
                Ok(Completion::Normal) => {
                    assert forall|after: Interpreter, last: Result<Completion, RuntimeError>|
                        #[trigger] meaning::looped(
                            next,
                            *condition,
                            *body,
                            after,
                            last,
                        ) implies meaning::looped(*old(self), *condition, *body, after, last) by {
                        assert(meaning::seen(mid, test));
                        assert(meaning::evaluated(start, *condition, mid, test));
                        assert(meaning::seen(next, ended));
                        assert(meaning::executed(mid, *body, next, ended));
                        assert(meaning::looped(start, *condition, *body, after, last));
                    }
                },
            }
        }
    }

    /// Makes the class `name` of the methods `methods`, with the superclass
    /// that `super_class` names, and defines it under its name.
    fn evaluate_class<H: Host>(
        &mut self,
        host: &mut H,
        name: &Token,
        super_class: &Option<Token>,
        methods: &Vec<Rc<FuncDeclaration>>,
    ) -> (result: Result<(), RuntimeError>)
        requires
            old(self).wf(),
        ensures
            final(self).follows(old(self)),
            meaning::class_declared(
                *old(self),
                *name,
                *super_class,
                *methods,
                *final(self),
                result,
            ),
        decreases old(self).steps_left, 1nat,
    {
        let parent: Option<usize> = match super_class {
            Some(token) => {
                let variable = Expr::Variable { name: token.clone() };
                match self.lookup_variable(&variable, token) {
                    Err(e) => {
                        return Err(e);
                    },
                    Ok(LoxValue::Callable(LoxCallable::Class(class))) => Some(class),
                    Ok(_) => {
                        return Err(RuntimeError::at(token, "Superclass must be a class."));
                    },
                }
            },
            None => None,
        };
        // The name is defined before the methods are made, so that they may
        // refer to the class.
        self.heap.define(self.environment, name.lexeme.clone(), LoxValue::Nil);
        let mark = self.environment;
        match parent {
            Some(class) => {
                let env = Environment::with_enclosing(&mut self.heap, self.environment);
                self.environment = env;
                self.heap.define(
                    env,
                    String::from_str("super"),
                    LoxValue::Callable(LoxCallable::Class(class)),
                );
            },
            None => {},
        }
        let ghost ready = *self;
        let mut table: Table<LoxFunction> = Table::new();
        let mut i: usize = 0;
        while i < methods.len()
            invariant
                i <= methods.len(),
                self.wf(),
                *self == ready,
                environment::methods_ok(table, self.heap.envs@.len()),
                table@ == meaning::methods_made(*methods, self.environment, i as int),
            decreases methods.len() - i,
        {
            let method = &methods[i];
            let is_initializer = str_eq(method.name.lexeme.as_str(), "init");
            let function = LoxFunction::new(values::share(method), self.environment, is_initializer);
            let _ = table.insert(method.name.lexeme.clone(), function);
            i += 1;
        }
        let class = self.heap.add_class(LoxClass::new(name.lexeme.clone(), table, parent));
        proof {
            let envs = self.heap.envs@;
            let current = old(self).environment as int;
            assert(envs[current].values@.contains_key(name@.lexeme));
            assert(environment::holder(envs, current, name@.lexeme) == Some(current));
            if parent is Some {
                let inner = old(self).heap.envs@.len() as int;
                assert(envs[inner].values@.contains_key("super"@));
                assert(envs[inner].enclosing == Some(old(self).environment));
                assert(environment::holder(envs, inner, name@.lexeme) == if name@.lexeme
                    == "super"@ {
                    Some(inner)
                } else {
                    Some(current)
                });
            }
        }
        let assigned = Environment::assign(
            &mut self.heap,
            self.environment,
            name,
            LoxValue::Callable(LoxCallable::Class(class)),
        );
        release(self, mark);
        proof {
            let current = old(self).environment as int;
            let made = LoxValue::Callable(LoxCallable::Class(class));
            assert(old(self).heap.envs@[current].values@.insert(name@.lexeme, LoxValue::Nil).insert(
                name@.lexeme,
                made,
            ) =~= old(self).heap.envs@[current].values@.insert(name@.lexeme, made));
            assert(Map::<Seq<char>, LoxValue>::empty().insert(
                "super"@,
                LoxValue::Callable(LoxCallable::Class(class)),
            ).insert("super"@, made) =~= Map::<Seq<char>, LoxValue>::empty().insert("super"@, made));
            let place = old(self).heap.classes@.len() as int;
            let inner = old(self).heap.envs@.len() as int;
            assert(meaning::superclass_of(*old(self), *super_class) == Ok::<
                Option<usize>,
                RuntimeErrorView,
            >(parent));
            assert(self.heap.classes@[place].name@ == name@.lexeme);
            assert(self.heap.classes@[place].super_class == parent);
            assert(self.heap.classes@[place].methods@ == meaning::methods_made(
                *methods,
                if parent is Some {
                    inner as usize
                } else {
                    old(self).environment
                },
                methods.len() as int,
            ));
            assert(forall|i: int|
                0 <= i < inner && i != current ==> self.heap.envs@[i] == old(self).heap.envs@[i]);
            assert(self.heap.envs@[current].enclosing == old(self).heap.envs@[current].enclosing);
            if parent is None {
                assert(self.heap.envs@.len() == inner);
                assert(self.heap.envs@[current].values@ == old(
                    self,
                ).heap.envs@[current].values@.insert(name@.lexeme, made));
            } else {
                assert(self.heap.envs@.len() == inner + 1);
                assert(self.heap.envs@[inner].enclosing == Some(old(self).environment));
                if name@.lexeme == "super"@ {
                    assert(self.heap.envs@[current].values@ == old(
                        self,
                    ).heap.envs@[current].values@.insert(name@.lexeme, LoxValue::Nil));
                    assert(self.heap.envs@[inner].values@ == Map::<Seq<char>, LoxValue>::empty().insert(
                        "super"@,
                        made,
                    ));
                } else {
                    assert(self.heap.envs@[current].values@ == old(
                        self,
                    ).heap.envs@[current].values@.insert(name@.lexeme, made));
                    assert(self.heap.envs@[inner].values@ == Map::<Seq<char>, LoxValue>::empty().insert(
                        "super"@,
                        LoxValue::Callable(LoxCallable::Class(parent->0)),
                    ));
                }
            }
            assert(forall|c: int|
                0 <= c < place ==> self.heap.classes@[c] == old(self).heap.classes@[c]);
            assert(meaning::class_made(*old(self), *name, parent, *methods, *self));
        }
        assigned
    }

    /// Executes `statements` in the environment at `environment`, and comes
    /// back to the current one however they end.
    pub fn execute_block<H: Host>(
        &mut self,
        host: &mut H,
        statements: &Vec<Stmt>,
        environment: usize,
    ) -> (result: Result<Completion, RuntimeError>)
        requires
            old(self).wf(),
            environment < old(self).heap.envs@.len(),
        ensures
            final(self).follows(old(self)),
            meaning::block_executed(*old(self), *statements, environment, *final(self), result),
            result matches Ok(Completion::Return(value)) ==> final(self).heap.ok(value),
        decreases old(self).steps_left, 2nat,
    {
        proof {
            reveal(meaning::block_executed);
            reveal(meaning::executed_all);
        }
        let mark = self.environment;
        self.environment = environment;
        let result = self.execute_statements(host, statements);
        release(self, mark);
        result
    }

    /// Executes `statements` in order, up to the first that returns or
    /// fails.
    fn execute_statements<H: Host>(&mut self, host: &mut H, statements: &Vec<Stmt>) -> (result:
        Result<Completion, RuntimeError>)
        requires
            old(self).wf(),
        ensures
            final(self).follows(old(self)),
            meaning::executed_all(*old(self), *statements, 0, *final(self), result),
            result matches Ok(Completion::Return(value)) ==> final(self).heap.ok(value),
        decreases old(self).steps_left, 1nat,
    {
        proof {
            reveal(meaning::executed_all);
            reveal(meaning::executed);
        }
        let mut i: usize = 0;
        while i < statements.len()
            invariant
                i <= statements.len(),
                self.follows(old(self)),
                self.wf(),
                forall|after: Interpreter, ended: Result<Completion, RuntimeError>|
                    #[trigger] meaning::executed_all(*self, *statements, i as int, after, ended)
                        ==> meaning::executed_all(*old(self), *statements, 0, after, ended),
            decreases statements.len() - i,
        {
            proof {
                reveal(meaning::executed_all);
                reveal(meaning::executed);
            }
            let ghost start = *self;
            let outcome = self.execute(host, &statements[i]);
            let ghost ended = outcome;
            let ghost mid = *self;
            match outcome {
                Err(e) => {
                    let result = Err(e);
                    assert(meaning::executed_all(start, *statements, i as int, mid, result)) by {
                        assert(meaning::seen(mid, ended));
                        assert(meaning::executed(start, statements[i as int], mid, ended));
                    }
                    return result;
                },
                Ok(Completion::Return(value)) => {
                    let result = Ok(Completion::Return(value));
                    assert(meaning::executed_all(start, *statements, i as int, mid, result)) by {
                        assert(meaning::seen(mid, ended));
                        assert(meaning::executed(start, statements[i as int], mid, ended));
                    }
                    return result;
                },
                Ok(Completion::Normal) => {
                    assert forall|after: Interpreter, last: Result<Completion, RuntimeError>|
                        #[trigger] meaning::executed_all(
                            mid,
                            *statements,
                            i + 1,
                            after,
                            last,
                        ) implies meaning::executed_all(*old(self), *statements, 0, after, last) by {
                        assert(meaning::seen(mid, ended));
                        assert(meaning::executed(start, statements[i as int], mid, ended));
                        assert(meaning::executed_all(start, *statements, i as int, after, last));
                    }
                },
            }
            i += 1;
        }
        let result = Ok(Completion::Normal);
        assert(meaning::executed_all(*self, *statements, i as int, *self, result));
        result
    }

    /// Evaluates an expression.
    pub fn evaluate<H: Host>(&mut self, host: &mut H, expr: &Expr) -> (result: Result<
        LoxValue,
        RuntimeError,
    >)
        requires
            old(self).wf(),
        ensures
            final(self).follows(old(self)),
            meaning::evaluated(*old(self), *expr, *final(self), result),
            result matches Ok(value) ==> final(self).heap.ok(value),
            result is Ok ==> final(self).steps_left < old(self).steps_left,
            old(self).steps_left == 0 ==> result is Err && *final(self) == *old(self),
            final(self).gives(
                old(self),
                result,
                pure(old(self).scene(), *expr, old(self).steps_left),
            ),
        decreases old(self).steps_left, 0nat,
    {
        proof {
            reveal(meaning::evaluated);
            reveal(meaning::unary_evaluated);
            reveal(meaning::binary_evaluated);
            reveal(meaning::logical_evaluated);
            reveal(meaning::call_evaluated);
            reveal(meaning::get_evaluated);
            reveal(meaning::set_evaluated);
            reveal(meaning::assign_evaluated);
        }
        proof {
            reveal(pure);
        }
        match self.step() {
            Err(e) => {
                return Err(e);
            },
            Ok(()) => {},
        }
        match expr {
            Expr::Grouping { expression } => self.evaluate(host, expression),
            Expr::Literal { value } => {
                let result = Ok(Self::literal(host, value));
                self.log = Ghost(meaning::literal_log(self.log@, *value, result));
                result
            },
            Expr::Unary { operator, right } => self.evaluate_unary(host, operator, right),
            Expr::Binary { left, operator, right } => self.evaluate_binary(
                host,
                left,
                operator,
                right,
            ),
            Expr::Variable { name } => self.lookup_variable(expr, name),
            Expr::Assign { name, value } => self.assign_expr(host, expr, name, value),
            Expr::Logical { left, operator, right } => self.evaluate_logical(
                host,
                left,
                operator,
                right,
            ),
            Expr::Call { callee, paren, arguments } => self.evaluate_call(
                host,
                callee,
                paren,
                arguments,
            ),
            Expr::Get { object, name } => self.evaluate_get(host, object, name),
            Expr::SetProperty { object, name, value } => self.evaluate_set(
                host,
                object,
                name,
                value,
            ),
            Expr::This { keyword } => self.lookup_variable(expr, keyword),
            Expr::Super { keyword, method } => self.evaluate_super(expr, keyword, method),
        }
    }

    /// The value of a literal. The value of a number's digits is the
    /// host's.
    pub fn literal<H: Host>(host: &mut H, value: &LiteralValue) -> (result: LoxValue)
        ensures
            match *value {
                LiteralValue::Nil => result == LoxValue::Nil,
                LiteralValue::Boolean(b) => result == LoxValue::Boolean(b),
                LiteralValue::Text(text) => result == LoxValue::String(text),
                LiteralValue::Number(_) => result is Number,
            },
    {
        match value {
            LiteralValue::Nil => LoxValue::Nil,
            LiteralValue::Boolean(b) => LoxValue::Boolean(*b),
            LiteralValue::Text(text) => LoxValue::String(text.clone()),
            LiteralValue::Number(digits) => LoxValue::Number(host.number(digits.as_str())),
        }
    }

    /// The method that `super.method` names: the superclass's, bound to the
    /// instance that `this` is.
    fn evaluate_super(&mut self, expr: &Expr, keyword: &Token, method: &Token) -> (result: Result<
        LoxValue,
        RuntimeError,
    >)
        requires
            old(self).wf(),
        ensures
            final(self).follows(old(self)),
            meaning::super_evaluated(*old(self), *expr, *keyword, *method, *final(self), result),
            final(self).steps_left == old(self).steps_left,
            result matches Ok(value) ==> final(self).heap.ok(value),
    {
        let distance = match self.get_distance(expr) {
            Some(distance) => distance,
            None => {
                return Err(RuntimeError::undefined_variable(keyword));
            },
        };
        let super_class = match Environment::get_at(&self.heap, self.environment, distance, "super") {
            Some(LoxValue::Callable(LoxCallable::Class(class))) => class,
            _ => {
                return Err(RuntimeError::undefined_variable(keyword));
            },
        };
        // `this` lives one environment inside the one of `super`.
        if distance == 0 {
            return Err(RuntimeError::undefined_variable(keyword));
        }
        let this_instance = match Environment::get_at(
            &self.heap,
            self.environment,
            distance - 1,
            "this",
        ) {
            Some(LoxValue::Instance(instance)) => instance,
            _ => {
                return Err(RuntimeError::undefined_variable(keyword));
            },
        };
        match self.heap.find_method(super_class, method.lexeme.as_str()) {
            Some(found) => {
                let bound = found.bind(&mut self.heap, this_instance);
                Ok(LoxValue::Callable(LoxCallable::LoxFunction(bound)))
            },
            None => Err(RuntimeError::undefined_property(method)),
        }
    }

    fn evaluate_get<H: Host>(&mut self, host: &mut H, object: &Expr, name: &Token) -> (result:
        Result<LoxValue, RuntimeError>)
        requires
            old(self).wf(),
        ensures
            final(self).follows(old(self)),
            meaning::get_evaluated(*old(self), *object, *name, *final(self), result),
            result matches Ok(value) ==> final(self).heap.ok(value),
            match pure(old(self).scene(), *object, old(self).steps_left) {
                Some(found) => match found.result {
                    Err(error) => final(self).at(old(self), found.steps) && semantics::fails_with(
                        result,
                        error,
                    ),
                    Ok(LoxValue::Instance(instance)) => semantics::got(
                        old(self).heap,
                        final(self).heap,
                        instance,
                        *name,
                        result,
                    ) && final(self).on(old(self), final(self).heap, found.steps),
                    Ok(_) => final(self).at(old(self), found.steps) && semantics::fails_with(
                        result,
                        RuntimeErrorView {
                            token: name@,
                            message: "Only instances have properties."@,
                        },
                    ),
                },
                None => true,
            },
        decreases old(self).steps_left, 1nat,
    {
        proof {
            reveal(meaning::get_evaluated);
            reveal(meaning::evaluated);
        }
        let answer = self.evaluate(host, object);
        let ghost target = answer;
        let ghost mid = *self;
        let result = match answer {
            Err(e) => Err(e),
            Ok(LoxValue::Instance(instance)) => LoxInstance::get(&mut self.heap, instance, name),
            Ok(_) => Err(RuntimeError::at(name, "Only instances have properties.")),
        };
        assert(meaning::get_evaluated(*old(self), *object, *name, *self, result)) by {
            assert(meaning::seen(mid, target));
            assert(meaning::evaluated(*old(self), *object, mid, target));
        }
        result
    }

    fn evaluate_set<H: Host>(&mut self, host: &mut H, object: &Expr, name: &Token, value: &Expr) -> (result:
        Result<LoxValue, RuntimeError>)
        requires
            old(self).wf(),
        ensures
            final(self).follows(old(self)),
            meaning::set_evaluated(*old(self), *object, *name, *value, *final(self), result),
            result matches Ok(value) ==> final(self).heap.ok(value),
            match pure(old(self).scene(), *object, old(self).steps_left) {
                Some(first) => match first.result {
                    Err(error) => final(self).at(old(self), first.steps) && semantics::fails_with(
                        result,
                        error,
                    ),
                    Ok(LoxValue::Instance(instance)) => match pure(
                        old(self).scene(),
                        *value,
                        first.steps,
                    ) {
                        Some(second) => match second.result {
                            Err(error) => final(self).at(old(self), second.steps)
                                && semantics::fails_with(result, error),
                            Ok(given) => {
                                &&& result == Ok::<LoxValue, RuntimeError>(given)
                                &&& semantics::field_set(
                                    old(self).heap,
                                    final(self).heap,
                                    instance,
                                    *name,
                                    given,
                                )
                                &&& final(self).on(old(self), final(self).heap, second.steps)
                            },
                        },
                        None => true,
                    },
                    Ok(_) => final(self).at(old(self), first.steps) && semantics::fails_with(
                        result,
                        RuntimeErrorView { token: name@, message: "Only instances have fields."@ },
                    ),
                },
                None => true,
            },
        decreases old(self).steps_left, 1nat,
    {
        proof {
            reveal(meaning::set_evaluated);
            reveal(meaning::evaluated);
        }
        let answer = self.evaluate(host, object);
        let ghost target = answer;
        let ghost mid = *self;
        let instance = match answer {
            Err(e) => {
                let result = Err(e);
                assert(meaning::set_evaluated(*old(self), *object, *name, *value, mid, result)) by {
                    assert(meaning::seen(mid, target));
                    assert(meaning::evaluated(*old(self), *object, mid, target));
                }
                return result;
            },
            Ok(LoxValue::Instance(instance)) => instance,
            Ok(_) => {
                let result = Err(RuntimeError::at(name, "Only instances have fields."));
                assert(meaning::set_evaluated(*old(self), *object, *name, *value, mid, result)) by {
                    assert(meaning::seen(mid, target));
                    assert(meaning::evaluated(*old(self), *object, mid, target));
                }
                return result;
            },
        };
        let second = self.evaluate(host, value);
        let ghost given = second;
        let ghost last = *self;
        let fresh = match second {
            Err(e) => {
                let result = Err(e);
                assert(meaning::set_evaluated(*old(self), *object, *name, *value, last, result)) by {
                    assert(meaning::seen(mid, target));
                    assert(meaning::evaluated(*old(self), *object, mid, target));
                    assert(meaning::seen(last, given));
                    assert(meaning::evaluated(mid, *value, last, given));
                }
                return result;
            },
            Ok(fresh) => fresh,
        };
        self.heap.set_field(instance, name, fresh.clone());
        let result = Ok(fresh);
        assert(meaning::set_evaluated(*old(self), *object, *name, *value, *self, result)) by {
            assert(meaning::seen(mid, target));
            assert(meaning::evaluated(*old(self), *object, mid, target));
            assert(meaning::seen(last, given));
            assert(meaning::evaluated(mid, *value, last, given));
        }
        result
    }

    /// The value of the variable that `main_expr` refers to by the name
    /// `name`: where a distance is recorded for the expression, the value in
    /// the environment at that distance; else the global of that name.
    pub fn lookup_variable(&self, main_expr: &Expr, name: &Token) -> (result: Result<
        LoxValue,
        RuntimeError,
    >)
        requires
            self.wf(),
        ensures
            result matches Ok(value) ==> self.heap.ok(value),
            operators::matches_result(result, self.variable_value(*main_expr, *name)),
    {
        match self.get_distance(main_expr) {
            Some(dist) => match Environment::get_at(
                &self.heap,
                self.environment,
                dist,
                name.lexeme.as_str(),
            ) {
                Some(value) => Ok(value),
                None => Err(RuntimeError::undefined_variable(name)),
            },
            None => Environment::get(&self.heap, GLOBALS, name),
        }
    }

    /// The distance recorded for `expr`, if any.
    pub fn get_distance(&self, expr: &Expr) -> (found: Option<usize>)
        ensures
            found == distance(self.locals@, *expr),
    {
        self.locals.get_distance(expr)
    }

    fn assign_expr<H: Host>(&mut self, host: &mut H, main_exp: &Expr, name: &Token, value: &Expr) -> (result:
        Result<LoxValue, RuntimeError>)
        requires
            old(self).wf(),
        ensures
            final(self).follows(old(self)),
            meaning::assign_evaluated(
                *old(self),
                *main_exp,
                *name,
                *value,
                *final(self),
                result,
            ),
            result matches Ok(value) ==> final(self).heap.ok(value),
            match pure(old(self).scene(), *value, old(self).steps_left) {
                Some(found) => match found.result {
                    Err(error) => final(self).at(old(self), found.steps) && semantics::fails_with(
                        result,
                        error,
                    ),
                    Ok(given) => semantics::assigned(
                        old(self).scene(),
                        final(self).heap,
                        *main_exp,
                        *name,
                        given,
                        result,
                    ) && final(self).on(old(self), final(self).heap, found.steps),
                },
                None => true,
            },
        decreases old(self).steps_left, 1nat,
    {
        proof {
            reveal(meaning::assign_evaluated);
            reveal(meaning::evaluated);
        }
        let answer = self.evaluate(host, value);
        let ghost given = answer;
        let ghost mid = *self;
        let fresh = match answer {
            Err(e) => {
                let result = Err(e);
                assert(meaning::assign_evaluated(*old(self), *main_exp, *name, *value, mid, result))
                    by {
                    assert(meaning::seen(mid, given));
                }
                return result;
            },
            Ok(fresh) => fresh,
        };
        let result = match self.get_distance(main_exp) {
            Some(distance) => {
                if Environment::assign_at(
                    &mut self.heap,
                    self.environment,
                    distance,
                    name,
                    fresh.clone(),
                ) {
                    Ok(fresh)
                } else {
                    Err(RuntimeError::undefined_variable(name))
                }
            },
            None => {
                match Environment::assign(&mut self.heap, GLOBALS, name, fresh.clone()) {
                    Err(e) => Err(e),
                    Ok(()) => Ok(fresh),
                }
            },
        };
        assert(meaning::assign_evaluated(*old(self), *main_exp, *name, *value, *self, result)) by {
            assert(meaning::seen(mid, given));
        }
        result
    }

    /// Evaluates the expressions of `arguments` in order.
    fn evaluate_arguments<H: Host>(&mut self, host: &mut H, arguments: &Vec<Expr>) -> (result:
        Result<Vec<LoxValue>, RuntimeError>)
        requires
            old(self).wf(),
        ensures
            final(self).follows(old(self)),
            meaning::evaluated_all(
                *old(self),
                *arguments,
                0,
                Seq::empty(),
                *final(self),
                result,
            ),
            result matches Ok(values) ==> values@.len() == arguments@.len() && all_ok(
                final(self).heap,
                values@,
            ),
            match semantics::pure_all(
                old(self).scene(),
                *arguments,
                0,
                old(self).steps_left,
                Seq::empty(),
            ) {
                Some(found) => final(self).at(old(self), found.steps) && match found.result {
                    Ok(values) => result matches Ok(given) && given@ == values,
                    Err(error) => semantics::fails_with(result, error),
                },
                None => true,
            },
        decreases old(self).steps_left, 1nat,
    {
        proof {
            reveal(meaning::evaluated_all);
            reveal(meaning::evaluated);
        }
        let mut args: Vec<LoxValue> = Vec::new();
        let mut i: usize = 0;
        let ghost whole = semantics::pure_all(
            old(self).scene(),
            *arguments,
            0,
            old(self).steps_left,
            Seq::empty(),
        );
        while i < arguments.len()
            invariant
                i <= arguments.len(),
                args@.len() == i,
                self.follows(old(self)),
                all_ok(self.heap, args@),
                whole == semantics::pure_all(
                    old(self).scene(),
                    *arguments,
                    0,
                    old(self).steps_left,
                    Seq::empty(),
                ),
                whole is Some ==> self.at(old(self), self.steps_left) && whole
                    == semantics::pure_all(
                    old(self).scene(),
                    *arguments,
                    i as int,
                    self.steps_left,
                    args@,
                ),
                forall|after: Interpreter, last: Result<Vec<LoxValue>, RuntimeError>|
                    #[trigger] meaning::evaluated_all(
                        *self,
                        *arguments,
                        i as int,
                        args@,
                        after,
                        last,
                    ) ==> meaning::evaluated_all(
                        *old(self),
                        *arguments,
                        0,
                        Seq::empty(),
                        after,
                        last,
                    ),
            decreases arguments.len() - i,
        {
            proof {
                reveal(meaning::evaluated_all);
                reveal(meaning::evaluated);
            }
            let ghost start = *self;
            let ghost found = args@;
            let answer = self.evaluate(host, &arguments[i]);
            let ghost first = answer;
            let ghost mid = *self;
            match answer {
                Err(e) => {
                    let result = Err(e);
                    assert(meaning::evaluated_all(start, *arguments, i as int, found, mid, result))
                        by {
                        assert(meaning::seen(mid, first));
                    }
                    return result;
                },
                Ok(value) => {
                    args.push(value);
                },
            }
            assert forall|after: Interpreter, last: Result<Vec<LoxValue>, RuntimeError>|
                #[trigger] meaning::evaluated_all(
                    mid,
                    *arguments,
                    i + 1,
                    args@,
                    after,
                    last,
                ) implies meaning::evaluated_all(
                *old(self),
                *arguments,
                0,
                Seq::empty(),
                after,
                last,
            ) by {
                assert(meaning::seen(mid, first));
                assert(meaning::evaluated_all(start, *arguments, i as int, found, after, last));
            }
            i += 1;
        }
        let result = Ok(args);
        assert(meaning::evaluated_all(*self, *arguments, i as int, args@, *self, result));
        result
    }

    fn evaluate_call<H: Host>(
        &mut self,
        host: &mut H,
        callee: &Expr,
        paren: &Token,
        arguments: &Vec<Expr>,
    ) -> (result: Result<LoxValue, RuntimeError>)
        requires
            old(self).wf(),
        ensures
            final(self).follows(old(self)),
            meaning::call_evaluated(
                *old(self),
                *callee,
                *paren,
                *arguments,
                *final(self),
                result,
            ),
            result matches Ok(value) ==> final(self).heap.ok(value),
        decreases old(self).steps_left, 8nat,
    {
        proof {
            reveal(meaning::call_evaluated);
            reveal(meaning::evaluated);
            reveal(meaning::evaluated_all);
            reveal(meaning::applied);
        }
        let answer = self.evaluate(host, callee);
        let ghost target = answer;
        let ghost mid = *self;
        let function = match answer {
            Err(e) => {
                let result = Err(e);
                assert(meaning::call_evaluated(
                    *old(self),
                    *callee,
                    *paren,
                    *arguments,
                    mid,
                    result,
                )) by {
                    assert(meaning::seen(mid, target));
                }
                return result;
            },
            Ok(value) => value,
        };
        let values = self.evaluate_arguments(host, arguments);
        let ghost given = values;
        let ghost last = *self;
        let args = match values {
            Err(e) => {
                let result = Err(e);
                assert(meaning::call_evaluated(
                    *old(self),
                    *callee,
                    *paren,
                    *arguments,
                    last,
                    result,
                )) by {
                    assert(meaning::seen(mid, target));
                    assert(meaning::seen(last, given));
                }
                return result;
            },
            Ok(values) => values,
        };
        let result = self.call_value(host, &function, paren, &args);
        assert(meaning::call_evaluated(*old(self), *callee, *paren, *arguments, *self, result)) by {
            assert(meaning::seen(mid, target));
            assert(meaning::seen(last, given));
        }
        result
    }

    /// Calls `callee` with `arguments` for the call that ends at `paren`.
    /// Only functions and classes can be called, and only with as many
    /// arguments as they take.
    pub fn call_value<H: Host>(
        &mut self,
        host: &mut H,
        callee: &LoxValue,
        paren: &Token,
        arguments: &Vec<LoxValue>,
    ) -> (result: Result<LoxValue, RuntimeError>)
        requires
            old(self).wf(),
            old(self).heap.ok(*callee),
            all_ok(old(self).heap, arguments@),
        ensures
            final(self).follows(old(self)),
            meaning::applied(*old(self), *callee, *paren, arguments@, *final(self), result),
            result matches Ok(value) ==> final(self).heap.ok(value),
            match *callee {
                LoxValue::Callable(callable) => callable_arity(callable, old(self).heap)
                    != arguments@.len() ==> {
                    &&& result matches Err(e)
                    &&& e@ == (RuntimeErrorView {
                        token: paren@,
                        message: operators::arity_message(
                            callable_arity(callable, old(self).heap),
                            arguments@.len(),
                        ),
                    })
                    &&& *final(self) == *old(self)
                },
                _ => {
                    &&& result matches Err(e)
                    &&& e@ == (RuntimeErrorView {
                        token: paren@,
                        message: "Can only call functions and classes."@,
                    })
                    &&& *final(self) == *old(self)
                },
            },
        decreases old(self).steps_left, 7nat,
    {
        proof {
            reveal(meaning::applied);
            reveal(meaning::called);
        }
        let callable = match callee {
            LoxValue::Callable(callable) => callable,
            _ => {
                return Err(RuntimeError::at(paren, "Can only call functions and classes."));
            },
        };
        match check_arity(paren, callable.arity(&self.heap), arguments.len()) {
            Err(e) => {
                return Err(e);
            },
            Ok(()) => {},
        }
        callable.call(self, host, arguments)
    }

    fn evaluate_unary<H: Host>(&mut self, host: &mut H, operator: &Token, right: &Expr) -> (result:
        Result<LoxValue, RuntimeError>)
        requires
            old(self).wf(),
        ensures
            final(self).follows(old(self)),
            meaning::unary_evaluated(*old(self), *operator, *right, *final(self), result),
            result matches Ok(value) ==> final(self).heap.ok(value),
            final(self).gives(
                old(self),
                result,
                semantics::after_operand(
                    *operator,
                    pure(old(self).scene(), *right, old(self).steps_left),
                ),
            ),
        decreases old(self).steps_left, 1nat,
    {
        proof {
            reveal(meaning::unary_evaluated);
            reveal(meaning::evaluated);
        }
        let answer = self.evaluate(host, right);
        let ghost operand = answer;
        let result = match answer {
            Err(e) => Err(e),
            Ok(value) => apply_unary(operator, &value),
        };
        assert(meaning::unary_evaluated(*old(self), *operator, *right, *self, result)) by {
            assert(meaning::seen(operand, ()));
        }
        result
    }

    fn evaluate_binary<H: Host>(&mut self, host: &mut H, left: &Expr, operator: &Token, right: &Expr) -> (result:
        Result<LoxValue, RuntimeError>)
        requires
            old(self).wf(),
        ensures
            final(self).follows(old(self)),
            meaning::binary_evaluated(
                *old(self),
                *left,
                *operator,
                *right,
                *final(self),
                result,
            ),
            result matches Ok(value) ==> final(self).heap.ok(value),
            final(self).gives(
                old(self),
                result,
                match pure(old(self).scene(), *left, old(self).steps_left) {
                    Some(found) => match found.result {
                        Err(_) => Some(found),
                        Ok(a) => match pure(old(self).scene(), *right, found.steps) {
                            Some(second) => match second.result {
                                Err(_) => Some(second),
                                Ok(b) => semantics::planned(
                                    *operator,
                                    operators::binary_plan(operator.typ, a, b),
                                    second.steps,
                                ),
                            },
                            None => None,
                        },
                    },
                    None => None,
                },
            ),
        decreases old(self).steps_left, 1nat,
    {
        proof {
            reveal(meaning::binary_evaluated);
            reveal(meaning::evaluated);
        }
        let answer = self.evaluate(host, left);
        let ghost first = answer;
        let ghost mid = *self;
        let a = match answer {
            Err(e) => {
                let result = Err(e);
                assert(meaning::binary_evaluated(
                    *old(self),
                    *left,
                    *operator,
                    *right,
                    mid,
                    result,
                )) by {
                    assert(meaning::seen(mid, first));
                }
                return result;
            },
            Ok(value) => value,
        };
        let other = self.evaluate(host, right);
        let ghost second = other;
        let b = match other {
            Err(e) => {
                let result = Err(e);
                assert(meaning::binary_evaluated(
                    *old(self),
                    *left,
                    *operator,
                    *right,
                    *self,
                    result,
                )) by {
                    assert(meaning::seen(mid, first));
                    assert(meaning::seen(*self, second));
                }
                return result;
            },
            Ok(value) => value,
        };
        let ghost last = *self;
        let plan = plan_binary(operator, &a, &b);
        let ghost planned = plan@;
        let result = Self::perform(host, operator, plan);
        self.log = Ghost(meaning::compute_log(self.log@, planned, result));
        assert(meaning::binary_evaluated(*old(self), *left, *operator, *right, *self, result)) by {
            assert(meaning::seen(mid, first));
            assert(meaning::seen(last, second));
        }
        result
    }

    /// Carries out what a binary operator does: the host computes where a
    /// number is to be computed, and the rest is as planned.
    pub fn perform<H: Host>(host: &mut H, operator: &Token, plan: BinaryPlan) -> (result: Result<
        LoxValue,
        RuntimeError,
    >)
        ensures
            match plan {
                BinaryPlan::Compute(_, _, _) => result matches Ok(LoxValue::Number(_)),
                BinaryPlan::Boolean(value) => result == Ok::<LoxValue, RuntimeError>(
                    LoxValue::Boolean(value),
                ),
                BinaryPlan::Text(text) => result == Ok::<LoxValue, RuntimeError>(
                    LoxValue::String(text),
                ),
                BinaryPlan::Fail(message) => result matches Err(e) && e.token == *operator
                    && e.message == message,
            },
    {
        match plan {
            BinaryPlan::Compute(operation, left, right) => Ok(
                LoxValue::Number(host.compute(operation, left, right)),
            ),
            BinaryPlan::Boolean(value) => Ok(LoxValue::Boolean(value)),
            BinaryPlan::Text(text) => Ok(LoxValue::String(text)),
            BinaryPlan::Fail(message) => Err(RuntimeError::new(operator.clone(), message)),
        }
    }

    fn evaluate_logical<H: Host>(&mut self, host: &mut H, left: &Expr, operator: &Token, right: &Expr) -> (result:
        Result<LoxValue, RuntimeError>)
        requires
            old(self).wf(),
        ensures
            final(self).follows(old(self)),
            meaning::logical_evaluated(
                *old(self),
                *left,
                *operator,
                *right,
                *final(self),
                result,
            ),
            result matches Ok(value) ==> final(self).heap.ok(value),
            final(self).gives(
                old(self),
                result,
                match pure(old(self).scene(), *left, old(self).steps_left) {
                    Some(found) => match semantics::logical_turn(*operator, found) {
                        semantics::Turn::Done(settled) => Some(settled),
                        semantics::Turn::Right => pure(old(self).scene(), *right, found.steps),
                    },
                    None => None,
                },
            ),
        decreases old(self).steps_left, 1nat,
    {
        proof {
            reveal(meaning::logical_evaluated);
            reveal(meaning::evaluated);
        }
        // The right operand is evaluated only if the left one does not
        // decide, so that what it does happens only then.
        let answer = self.evaluate(host, left);
        let ghost first = answer;
        let ghost mid = *self;
        let value = match answer {
            Err(e) => {
                let result = Err(e);
                assert(meaning::logical_evaluated(
                    *old(self),
                    *left,
                    *operator,
                    *right,
                    mid,
                    result,
                )) by {
                    assert(meaning::seen(mid, first));
                }
                return result;
            },
            Ok(value) => value,
        };
        let result = match short_circuits(operator, &value) {
            Err(e) => Err(e),
            Ok(true) => Ok(value),
            Ok(false) => self.evaluate(host, right),
        };
        assert(meaning::logical_evaluated(*old(self), *left, *operator, *right, *self, result)) by {
            assert(meaning::seen(mid, first));
        }
        result
    }
}

impl LoxCallable {
    /// Calls this callable with `arguments`.
    pub fn call<H: Host>(&self, interpreter: &mut Interpreter, host: &mut H, arguments: &Vec<LoxValue>) -> (result:
        Result<LoxValue, RuntimeError>)
        requires
            old(interpreter).wf(),
            old(interpreter).heap.ok(LoxValue::Callable(*self)),
            all_ok(old(interpreter).heap, arguments@),
        ensures
            final(interpreter).follows(old(interpreter)),
            meaning::called(
                *old(interpreter),
                *self,
                arguments@,
                *final(interpreter),
                result,
            ),
            result matches Ok(value) ==> final(interpreter).heap.ok(value),
        decreases old(interpreter).steps_left, 6nat,
    {
        proof {
            reveal(meaning::called);
            reveal(meaning::function_called);
            reveal(meaning::class_called);
        }
        match self {
            LoxCallable::Clock => {
                let result = Self::clock(host);
                interpreter.log = Ghost(interpreter.log@.push(meaning::clock_exchange(result)));
                result
            },
            LoxCallable::LoxFunction(function) => function.call(interpreter, host, arguments),
            LoxCallable::Class(class) => LoxClass::call(*class, interpreter, host, arguments),
        }
    }

    /// The host's time, or an error that says why it cannot be had.
    fn clock<H: Host>(host: &mut H) -> (result: Result<LoxValue, RuntimeError>)
        ensures
            result matches Ok(value) ==> value is Number,
            result is Err ==> exists|reason: Seq<char>| #[trigger]
                meaning::seen(reason, ()) && semantics::fails_with(result, clock_failure(reason)),
    {
        let answer = host.clock();
        let ghost told = answer;
        let result = Self::clock_value(answer);
        proof {
            match told {
                Err(reason) => {
                    assert(meaning::seen(reason@, ()));
                },
                Ok(_) => {},
            }
        }
        result
    }

    /// What the clock gives for the host's answer: the time as a number,
    /// or an error that holds the host's reason.
    pub fn clock_value(answer: Result<Number, String>) -> (result: Result<LoxValue, RuntimeError>)
        ensures
            match answer {
                Ok(seconds) => result == Ok::<LoxValue, RuntimeError>(LoxValue::Number(seconds)),
                Err(reason) => semantics::fails_with(result, clock_failure(reason@)),
            },
    {
        match answer {
            Ok(seconds) => Ok(LoxValue::Number(seconds)),
            Err(reason) => {
                let mut message = String::from_str("Error while calling system time: ");
                message.append(reason.as_str());
                Err(
                    RuntimeError::new(
                        Token::new(0, TokenType::Fun, String::from_str(CLOCK_NAME), 0),
                        message,
                    ),
                )
            },
        }
    }
}

impl LoxFunction {
    /// Calls the function: its parameters are defined as `arguments`, one by
    /// one, in a new environment inside the one the function was declared
    /// in, and the body runs there. The result is what the body returns, or
    /// `nil`; an initializer gives the instance that `this` is.
    pub fn call<H: Host>(&self, interpreter: &mut Interpreter, host: &mut H, arguments: &Vec<LoxValue>) -> (result:
        Result<LoxValue, RuntimeError>)
        requires
            old(interpreter).wf(),
            self.closure < old(interpreter).heap.envs@.len(),
            all_ok(old(interpreter).heap, arguments@),
        ensures
            final(interpreter).follows(old(interpreter)),
            meaning::function_called(
                *old(interpreter),
                *self,
                arguments@,
                *final(interpreter),
                result,
            ),
            result matches Ok(value) ==> final(interpreter).heap.ok(value),
            self.is_initializer ==> (result matches Ok(value) ==> value == match environment::lookup_at(
                final(interpreter).heap.envs@,
                self.closure as int,
                0,
                "this"@,
            ) {
                Some(instance) => instance,
                None => LoxValue::Nil,
            }),
        decreases old(interpreter).steps_left, 4nat,
    {
        proof {
            reveal(meaning::function_called);
            reveal(meaning::block_executed);
        }
        let environment = Environment::with_enclosing(&mut interpreter.heap, self.closure);
        let count = if arguments.len() <= self.declaration.params.len() {
            arguments.len()
        } else {
            self.declaration.params.len()
        };
        let mut i: usize = 0;
        while i < count
            invariant
                i <= count,
                count <= arguments.len(),
                count <= self.declaration.params.len(),
                interpreter.follows(old(interpreter)),
                interpreter.on(old(interpreter), interpreter.heap, old(interpreter).steps_left),
                environment == old(interpreter).heap.envs@.len(),
                interpreter.heap.envs@.len() == environment + 1,
                interpreter.heap.envs@[environment as int].enclosing == Some(self.closure),
                interpreter.heap.envs@[environment as int].values@ == meaning::bound_params(
                    self.declaration.params@,
                    arguments@,
                    i as int,
                ),
                forall|j: int|
                    0 <= j < environment ==> interpreter.heap.envs@[j] == old(
                        interpreter,
                    ).heap.envs@[j],
                interpreter.heap.classes == old(interpreter).heap.classes,
                interpreter.heap.instances == old(interpreter).heap.instances,
                all_ok(interpreter.heap, arguments@),
            decreases count - i,
        {
            interpreter.heap.define(
                environment,
                self.declaration.params[i].lexeme.clone(),
                arguments[i].clone(),
            );
            i += 1;
        }
        let ghost bound = interpreter.heap;
        let outcome = interpreter.execute_block(host, &self.declaration.body, environment);
        let ghost ended = outcome;
        let result = match outcome {
            Err(e) => Err(e),
            Ok(completion) => {
                if self.is_initializer {
                    match Environment::get_at(&interpreter.heap, self.closure, 0, "this") {
                        Some(value) => Ok(value),
                        None => Ok(LoxValue::Nil),
                    }
                } else {
                    match completion {
                        Completion::Normal => Ok(LoxValue::Nil),
                        Completion::Return(value) => Ok(value),
                    }
                }
            },
        };
        assert(meaning::function_called(
            *old(interpreter),
            *self,
            arguments@,
            *interpreter,
            result,
        )) by {
            assert(meaning::seen(bound, ended));
            assert(meaning::params_bound(old(interpreter).heap, bound, *self, arguments@));
        }
        result
    }
}

impl LoxClass {
    /// Calls the class at `class`: a new instance is made, and the class's
    /// initializer, if it has one, is called on it with `arguments`.
    pub fn call<H: Host>(class: usize, interpreter: &mut Interpreter, host: &mut H, arguments: &Vec<LoxValue>) -> (result:
        Result<LoxValue, RuntimeError>)
        requires
            old(interpreter).wf(),
            class < old(interpreter).heap.classes@.len(),
            all_ok(old(interpreter).heap, arguments@),
        ensures
            final(interpreter).follows(old(interpreter)),
            meaning::class_called(
                *old(interpreter),
                class,
                arguments@,
                *final(interpreter),
                result,
            ),
            result matches Ok(value) ==> final(interpreter).heap.ok(value),
            result matches Ok(value) ==> value == LoxValue::Instance(
                old(interpreter).heap.instances.len(),
            ) && final(interpreter).heap.instances@[old(interpreter).heap.instances@.len() as int].class
                == class,
        decreases old(interpreter).steps_left, 5nat,
    {
        proof {
            reveal(meaning::class_called);
            reveal(meaning::function_called);
        }
        let instance = interpreter.heap.add_instance(class);
        let ghost made = interpreter.heap;
        let result = match interpreter.heap.find_method(class, "init") {
            Some(initializer) => {
                let bound = initializer.bind(&mut interpreter.heap, instance);
                let ghost ready = interpreter.heap;
                let outcome = bound.call(interpreter, host, arguments);
                let ghost ended = outcome;
                let result = match outcome {
                    Err(e) => Err(e),
                    Ok(_) => Ok(LoxValue::Instance(instance)),
                };
                assert(meaning::class_called(
                    *old(interpreter),
                    class,
                    arguments@,
                    *interpreter,
                    result,
                )) by {
                    assert(meaning::seen(made, ()));
                    assert(meaning::seen(ready, (bound, ended)));
                    assert(semantics::bound_to(made, ready, initializer, instance, bound));
                }
                result
            },
            None => {
                let result = Ok(LoxValue::Instance(instance));
                assert(meaning::class_called(
                    *old(interpreter),
                    class,
                    arguments@,
                    *interpreter,
                    result,
                )) by {
                    assert(meaning::seen(made, ()));
                }
                result
            },
        };
        result
    }

    /// The number of arguments that the class at `class` takes.
    pub fn arity(heap: &Heap, class: usize) -> (count: usize)
        requires
            heap.wf(),
        ensures
            count == class::class_arity(heap.classes@, class as int),
    {
        match heap.find_method(class, "init") {
            Some(initializer) => initializer.arity(),
            None => 0,
        }
    }

    /// The method `name` of the class at `class`, its own or inherited.
    pub fn find_method(heap: &Heap, class: usize, name: &str) -> (method: Option<LoxFunction>)
        requires
            heap.wf(),
        ensures
            method == class::find_method_spec(heap.classes@, class as int, name@),
    {
        heap.find_method(class, name)
    }
}

} // verus!
