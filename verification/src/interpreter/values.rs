//! The values that a program computes with.
use std::rc::Rc;
use vstd::prelude::*;
use crate::ast::FuncDeclaration;
use crate::number::Number;

verus! {

/// `Rc::clone`: another pointer to the same value.
#[verifier::external_body]
pub(crate) fn share<T>(shared: &Rc<T>) -> (copy: Rc<T>)
    ensures
        copy == *shared,
{
    Rc::clone(shared)
}

/// A function: its declaration, the environment it was declared in, and
/// whether it is the initializer of a class.
#[derive(Debug)]
pub struct LoxFunction {
    pub declaration: Rc<FuncDeclaration>,
    pub closure: usize,
    pub is_initializer: bool,
}

/// What can be called: the clock, a function, or a class, which is given by
/// its place among the classes.
#[derive(Debug)]
pub enum LoxCallable {
    Clock,
    LoxFunction(LoxFunction),
    Class(usize),
}

/// A value. An instance is given by its place among the instances.
#[derive(Debug)]
pub enum LoxValue {
    Nil,
    Boolean(bool),
    Number(Number),
    String(String),
    Callable(LoxCallable),
    Instance(usize),
}

impl Clone for LoxFunction {
    fn clone(&self) -> (copy: Self)
        ensures
            copy == *self,
    {
        LoxFunction {
            declaration: share(&self.declaration),
            closure: self.closure,
            is_initializer: self.is_initializer,
        }
    }
}

impl Clone for LoxCallable {
    fn clone(&self) -> (copy: Self)
        ensures
            copy == *self,
    {
        match self {
            LoxCallable::Clock => LoxCallable::Clock,
            LoxCallable::LoxFunction(function) => LoxCallable::LoxFunction(function.clone()),
            LoxCallable::Class(class) => LoxCallable::Class(*class),
        }
    }
}

impl Clone for LoxValue {
    fn clone(&self) -> (copy: Self)
        ensures
            copy == *self,
    {
        match self {
            LoxValue::Nil => LoxValue::Nil,
            LoxValue::Boolean(value) => LoxValue::Boolean(*value),
            LoxValue::Number(value) => LoxValue::Number(*value),
            LoxValue::String(value) => LoxValue::String(value.clone()),
            LoxValue::Callable(callable) => LoxValue::Callable(callable.clone()),
            LoxValue::Instance(instance) => LoxValue::Instance(*instance),
        }
    }
}

/// Whether a value counts as true: everything but `nil` and `false` does.
pub open spec fn truthy(value: LoxValue) -> bool {
    match value {
        LoxValue::Nil => false,
        LoxValue::Boolean(value) => value,
        _ => true,
    }
}

/// Whether two callables are the same: the clock is itself, two functions
/// are the same if they come from one declaration and one environment, two
/// classes if they are one class.
pub open spec fn same_callable(left: LoxCallable, right: LoxCallable) -> bool {
    match (left, right) {
        (LoxCallable::Clock, LoxCallable::Clock) => true,
        (LoxCallable::LoxFunction(f), LoxCallable::LoxFunction(g)) => f.declaration.name.id
            == g.declaration.name.id && f.closure == g.closure,
        (LoxCallable::Class(c), LoxCallable::Class(d)) => c == d,
        _ => false,
    }
}

/// Whether two values are equal. Values of different kinds never are;
/// numbers are compared as numbers, strings by their text, instances and
/// callables by identity.
pub open spec fn equal_values(left: LoxValue, right: LoxValue) -> bool {
    match (left, right) {
        (LoxValue::Nil, LoxValue::Nil) => true,
        (LoxValue::Boolean(a), LoxValue::Boolean(b)) => a == b,
        (LoxValue::Number(a), LoxValue::Number(b)) => a.eq_spec(b),
        (LoxValue::String(a), LoxValue::String(b)) => a@ == b@,
        (LoxValue::Callable(f), LoxValue::Callable(g)) => same_callable(f, g),
        (LoxValue::Instance(i), LoxValue::Instance(j)) => i == j,
        _ => false,
    }
}

impl LoxFunction {
    /// The function declared by `declaration` in the environment `closure`.
    pub fn new(declaration: Rc<FuncDeclaration>, closure: usize, is_initializer: bool) -> (function:
        LoxFunction)
        ensures
            function.declaration == declaration,
            function.closure == closure,
            function.is_initializer == is_initializer,
    {
        LoxFunction { declaration, closure, is_initializer }
    }

    /// The number of parameters.
    pub fn arity(&self) -> (count: usize)
        ensures
            count == self.declaration.params.len(),
    {
        self.declaration.params.len()
    }
}

impl LoxCallable {
    /// Whether `self` and `other` are the same callable.
    pub fn same(&self, other: &LoxCallable) -> (r: bool)
        ensures
            r == same_callable(*self, *other),
    {
        match (self, other) {
            (LoxCallable::Clock, LoxCallable::Clock) => true,
            (LoxCallable::LoxFunction(f), LoxCallable::LoxFunction(g)) => f.declaration.name.id
                == g.declaration.name.id && f.closure == g.closure,
            (LoxCallable::Class(c), LoxCallable::Class(d)) => *c == *d,
            _ => false,
        }
    }
}

impl LoxValue {
    /// Whether the value counts as true.
    pub fn is_truthy(&self) -> (r: bool)
        ensures
            r == truthy(*self),
    {
        match self {
            LoxValue::Nil => false,
            LoxValue::Boolean(value) => *value,
            LoxValue::Number(..)
            | LoxValue::String(..)
            | LoxValue::Callable(..)
            | LoxValue::Instance(..) => true,
        }
    }

    /// Whether `self` equals `other`.
    pub fn equals(&self, other: &LoxValue) -> (r: bool)
        ensures
            r == equal_values(*self, *other),
    {
        match (self, other) {
            (LoxValue::Nil, LoxValue::Nil) => true,
            (LoxValue::Boolean(a), LoxValue::Boolean(b)) => *a == *b,
            (LoxValue::Number(a), LoxValue::Number(b)) => a.equals(*b),
            (LoxValue::String(a), LoxValue::String(b)) => *a == *b,
            (LoxValue::Callable(f), LoxValue::Callable(g)) => f.same(g),
            (LoxValue::Instance(i), LoxValue::Instance(j)) => *i == *j,
            _ => false,
        }
    }
}

} // verus!
