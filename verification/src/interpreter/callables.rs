//! What functions, classes and instances do without running any code:
//! binding a method to an instance, counting parameters, reading a property.
use vstd::prelude::*;
use vstd::string::StringExecFns;
use crate::interpreter::class::{class_arity, find_method_spec};
use crate::interpreter::environment::{Environment, Heap};
use crate::interpreter::error::{quoted, RuntimeError, RuntimeErrorView};
use crate::interpreter::instance::LoxInstance;
use crate::interpreter::values::{LoxCallable, LoxFunction, LoxValue};
use crate::token::Token;

verus! {

/// The name under which the clock is defined.
pub const CLOCK_NAME: &'static str = "clock";

/// The number of arguments that `callable` takes.
pub open spec fn callable_arity(callable: LoxCallable, heap: Heap) -> nat {
    match callable {
        LoxCallable::Clock => 0,
        LoxCallable::LoxFunction(function) => function.declaration.params.len() as nat,
        LoxCallable::Class(class) => class_arity(heap.classes@, class as int),
    }
}

impl LoxFunction {
    /// This method bound to the instance at `instance`: the same
    /// declaration in a new environment, inside the method's own, in which
    /// `this` is the instance.
    pub fn bind(&self, heap: &mut Heap, instance: usize) -> (bound: LoxFunction)
        requires
            old(heap).wf(),
            self.closure < old(heap).envs.len(),
            instance < old(heap).instances.len(),
        ensures
            final(heap).wf(),
            final(heap).extends(old(heap)),
            bound.declaration == self.declaration,
            bound.is_initializer == self.is_initializer,
            bound.closure == old(heap).envs.len(),
            final(heap).envs@.len() == old(heap).envs@.len() + 1,
            final(heap).envs@[bound.closure as int].enclosing == Some(self.closure),
            final(heap).envs@[bound.closure as int].values@ == Map::<Seq<char>, LoxValue>::empty().insert(
                "this"@,
                LoxValue::Instance(instance),
            ),
            forall|i: int|
                0 <= i < old(heap).envs.len() ==> final(heap).envs@[i] == old(heap).envs@[i],
            final(heap).classes == old(heap).classes,
            final(heap).instances == old(heap).instances,
    {
        let env = Environment::with_enclosing(heap, self.closure);
        heap.define(env, String::from_str("this"), LoxValue::Instance(instance));
        LoxFunction::new(crate::interpreter::values::share(&self.declaration), env, self.is_initializer)
    }

    /// How a function is shown: `<fn NAME>`.
    pub fn to_string(&self) -> (text: String)
        ensures
            text@ == "<fn "@ + self.declaration.name@.lexeme + ">"@,
    {
        let mut text = String::from_str("<fn ");
        text.append(self.declaration.name.lexeme.as_str());
        text.append(">");
        text
    }
}

impl LoxCallable {
    /// The number of arguments that this callable takes.
    pub fn arity(&self, heap: &Heap) -> (count: usize)
        requires
            heap.wf(),
        ensures
            count == callable_arity(*self, *heap),
    {
        match self {
            LoxCallable::Clock => 0,
            LoxCallable::LoxFunction(function) => function.arity(),
            LoxCallable::Class(class) => match heap.find_method(*class, "init") {
                Some(initializer) => initializer.arity(),
                None => 0,
            },
        }
    }
}

impl LoxInstance {
    /// The property `name` of the instance at `instance`: the field of that
    /// name, or else the method of that name, bound to the instance.
    pub fn get(heap: &mut Heap, instance: usize, name: &Token) -> (result: Result<
        LoxValue,
        RuntimeError,
    >)
        requires
            old(heap).wf(),
            instance < old(heap).instances.len(),
        ensures
            final(heap).wf(),
            final(heap).extends(old(heap)),
            final(heap).classes == old(heap).classes,
            final(heap).instances == old(heap).instances,
            result matches Ok(value) ==> final(heap).ok(value),
            crate::interpreter::semantics::got(*old(heap), *final(heap), instance, *name, result),
            old(heap).instances@[instance as int].fields@.contains_key(name@.lexeme) ==> {
                &&& result == Ok::<LoxValue, RuntimeError>(
                    old(heap).instances@[instance as int].fields@[name@.lexeme],
                )
                &&& *final(heap) == *old(heap)
            },
            !old(heap).instances@[instance as int].fields@.contains_key(name@.lexeme) ==> match find_method_spec(
                old(heap).classes@,
                old(heap).instances@[instance as int].class as int,
                name@.lexeme,
            ) {
                Some(method) => {
                    &&& result matches Ok(LoxValue::Callable(LoxCallable::LoxFunction(bound)))
                    &&& bound.declaration == method.declaration
                    &&& bound.is_initializer == method.is_initializer
                    &&& bound.closure == old(heap).envs.len()
                    &&& final(heap).envs@[bound.closure as int].enclosing == Some(method.closure)
                    &&& final(heap).envs@[bound.closure as int].values@ == Map::<
                        Seq<char>,
                        LoxValue,
                    >::empty().insert("this"@, LoxValue::Instance(instance))
                },
                None => {
                    &&& result matches Err(e)
                    &&& e@ == (RuntimeErrorView {
                        token: name@,
                        message: quoted("Undefined property"@, name@.lexeme),
                    })
                    &&& *final(heap) == *old(heap)
                },
            },
    {
        assert(heap.instance_wf(instance as int));
        match heap.instances[instance].fields.get(name.lexeme.as_str()) {
            Some(value) => {
                return Ok(value.clone());
            },
            None => {},
        }
        let class = heap.instances[instance].class;
        match heap.find_method(class, name.lexeme.as_str()) {
            Some(method) => {
                let function = method.bind(heap, instance);
                Ok(LoxValue::Callable(LoxCallable::LoxFunction(function)))
            },
            None => Err(RuntimeError::undefined_property(name)),
        }
    }
}

} // verus!
