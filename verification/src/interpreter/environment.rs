//! Environments, and the heap that holds them with the classes and the
//! instances.
//!
//! Environments outlive the blocks and calls that make them, because
//! functions keep the environment they were declared in. So they live in
//! the heap and are named by their place in it; a place once given is never
//! given again.
use vstd::prelude::*;
use crate::interpreter::class::{find_method_spec, LoxClass};
use crate::interpreter::error::{quoted, RuntimeError, RuntimeErrorView};
use crate::interpreter::instance::LoxInstance;
use crate::interpreter::values::{LoxCallable, LoxFunction, LoxValue};
use crate::table::Table;
use crate::token::Token;

verus! {

/// One scope's variables, and the place of the enclosing scope.
#[derive(Debug)]
pub struct Environment {
    pub enclosing: Option<usize>,
    pub values: Table<LoxValue>,
}

/// The environments, classes and instances of a running program. The first
/// environment holds the globals.
#[derive(Debug)]
pub struct Heap {
    pub envs: Vec<Environment>,
    pub classes: Vec<LoxClass>,
    pub instances: Vec<LoxInstance>,
}

/// Whether the places that `value` names exist among `envs` environments,
/// `classes` classes and `instances` instances.
pub open spec fn value_ok(value: LoxValue, envs: nat, classes: nat, instances: nat) -> bool {
    match value {
        LoxValue::Callable(LoxCallable::LoxFunction(function)) => function.closure < envs,
        LoxValue::Callable(LoxCallable::Class(class)) => class < classes,
        LoxValue::Instance(instance) => instance < instances,
        _ => true,
    }
}

/// Whether all values of `table` are well-formed.
pub open spec fn values_ok(table: Table<LoxValue>, envs: nat, classes: nat, instances: nat) -> bool {
    forall|j: int|
        0 <= j < table.entries@.len() ==> value_ok(
            (#[trigger] table.entries@[j]).1,
            envs,
            classes,
            instances,
        )
}

/// Whether all methods of `table` were declared in environments that exist.
pub open spec fn methods_ok(table: Table<LoxFunction>, envs: nat) -> bool {
    forall|j: int| 0 <= j < table.entries@.len() ==> (#[trigger] table.entries@[j]).1.closure < envs
}

/// The `distance`-th environment outwards from `current`, if the chain is
/// that long.
pub open spec fn ancestor(envs: Seq<Environment>, current: int, distance: nat) -> Option<int>
    decreases distance,
{
    if !(0 <= current < envs.len()) {
        None
    } else if distance == 0 {
        Some(current)
    } else {
        match envs[current].enclosing {
            Some(parent) => ancestor(envs, parent as int, (distance - 1) as nat),
            None => None,
        }
    }
}

/// The first environment from `current` outwards that has `name`.
pub open spec fn holder(envs: Seq<Environment>, current: int, name: Seq<char>) -> Option<int>
    decreases current,
{
    if !(0 <= current < envs.len()) {
        None
    } else if envs[current].values@.contains_key(name) {
        Some(current)
    } else {
        match envs[current].enclosing {
            Some(parent) => if parent < current {
                holder(envs, parent as int, name)
            } else {
                None
            },
            None => None,
        }
    }
}

/// The value of `name` as seen from `current`: that of the first
/// environment outwards that has the name.
pub open spec fn lookup(envs: Seq<Environment>, current: int, name: Seq<char>) -> Option<LoxValue> {
    match holder(envs, current, name) {
        Some(at) => Some(envs[at].values@[name]),
        None => None,
    }
}

/// The value of `name` in the `distance`-th environment outwards from
/// `current`.
pub open spec fn lookup_at(envs: Seq<Environment>, current: int, distance: nat, name: Seq<char>) -> Option<
    LoxValue,
> {
    match ancestor(envs, current, distance) {
        Some(at) => if envs[at].values@.contains_key(name) {
            Some(envs[at].values@[name])
        } else {
            None
        },
        None => None,
    }
}

/// The error for the variable `name` that nothing defines.
pub open spec fn undefined(name: Token) -> RuntimeErrorView {
    RuntimeErrorView { token: name@, message: quoted("Undefined variable"@, name@.lexeme) }
}

impl Environment {
    /// Defines `key` as `value` in this environment, whether or not it was
    /// defined before.
    pub fn define(&mut self, key: String, value: LoxValue)
        ensures
            final(self).enclosing == old(self).enclosing,
            final(self).values@ == old(self).values@.insert(key@, value),
            crate::table::kept_or(old(self).values.entries@, final(self).values.entries@, value),
    {
        let _ = self.values.insert(key, value);
    }

    /// A new environment inside the one at `enclosing`. Gives its place.
    pub fn with_enclosing(heap: &mut Heap, enclosing: usize) -> (place: usize)
        requires
            old(heap).wf(),
            enclosing < old(heap).envs.len(),
        ensures
            final(heap).wf(),
            final(heap).extends(old(heap)),
            place == old(heap).envs.len(),
            final(heap).envs@.len() == old(heap).envs@.len() + 1,
            final(heap).envs@[place as int].enclosing == Some(enclosing),
            final(heap).envs@[place as int].values@ == Map::<Seq<char>, LoxValue>::empty(),
            forall|i: int|
                0 <= i < old(heap).envs.len() ==> final(heap).envs@[i] == old(heap).envs@[i],
            final(heap).classes == old(heap).classes,
            final(heap).instances == old(heap).instances,
    {
        let place = heap.envs.len();
        heap.envs.push(Environment { enclosing: Some(enclosing), values: Table::new() });
        assert forall|i: int| 0 <= i < heap.envs.len() implies heap.env_wf(i) by {
            if i < place {
                assert(old(heap).env_wf(i));
                assert(heap.envs@[i] == old(heap).envs@[i]);
            }
        }
        assert forall|c: int| 0 <= c < heap.classes.len() implies heap.class_wf(c) by {
            assert(old(heap).class_wf(c));
        }
        assert forall|k: int| 0 <= k < heap.instances.len() implies heap.instance_wf(k) by {
            assert(old(heap).instance_wf(k));
        }
        place
    }

    /// The `distance`-th environment outwards from `current`, if the chain
    /// is that long.
    pub fn find_ancestor(heap: &Heap, current: usize, distance: usize) -> (place: Option<usize>)
        ensures
            match place {
                Some(at) => ancestor(heap.envs@, current as int, distance as nat) == Some(at as int)
                    && at < heap.envs.len(),
                None => ancestor(heap.envs@, current as int, distance as nat) is None,
            },
    {
        let mut env: usize = current;
        let mut left: usize = distance;
        while left > 0
            invariant
                ancestor(heap.envs@, current as int, distance as nat) == ancestor(
                    heap.envs@,
                    env as int,
                    left as nat,
                ),
            decreases left,
        {
            if env >= heap.envs.len() {
                return None;
            }
            match heap.envs[env].enclosing {
                Some(parent) => {
                    env = parent;
                },
                None => {
                    return None;
                },
            }
            left -= 1;
        }
        if env < heap.envs.len() {
            Some(env)
        } else {
            None
        }
    }

    /// The value of `name` as seen from the environment at `current`.
    pub fn get(heap: &Heap, current: usize, name: &Token) -> (result: Result<LoxValue, RuntimeError>)
        requires
            heap.wf(),
        ensures
            match result {
                Ok(value) => lookup(heap.envs@, current as int, name@.lexeme) == Some(value)
                    && heap.ok(value),
                Err(e) => lookup(heap.envs@, current as int, name@.lexeme) is None && e@
                    == undefined(*name),
            },
    {
        let mut env: usize = current;
        loop
            invariant
                heap.wf(),
                holder(heap.envs@, current as int, name@.lexeme) == holder(
                    heap.envs@,
                    env as int,
                    name@.lexeme,
                ),
            decreases env,
        {
            if env >= heap.envs.len() {
                return Err(RuntimeError::undefined_variable(name));
            }
            assert(heap.env_wf(env as int));
            match heap.envs[env].values.get(name.lexeme.as_str()) {
                Some(value) => {
                    return Ok(value.clone());
                },
                None => {},
            }
            match heap.envs[env].enclosing {
                Some(parent) => {
                    env = parent;
                },
                None => {
                    return Err(RuntimeError::undefined_variable(name));
                },
            }
        }
    }

    /// The value of `name` in the `depth`-th environment outwards from
    /// `current`.
    pub fn get_at(heap: &Heap, current: usize, depth: usize, name: &str) -> (value: Option<LoxValue>)
        requires
            heap.wf(),
        ensures
            value == lookup_at(heap.envs@, current as int, depth as nat, name@),
            value matches Some(v) ==> heap.ok(v),
    {
        match Environment::find_ancestor(heap, current, depth) {
            Some(at) => {
                assert(heap.env_wf(at as int));
                match heap.envs[at].values.get(name) {
                    Some(value) => Some(value.clone()),
                    None => None,
                }
            },
            None => None,
        }
    }

    /// Gives `name` the value `value` in the first environment from
    /// `current` outwards that has the name.
    pub fn assign(heap: &mut Heap, current: usize, name: &Token, value: LoxValue) -> (result: Result<
        (),
        RuntimeError,
    >)
        requires
            old(heap).wf(),
            old(heap).ok(value),
        ensures
            final(heap).wf(),
            final(heap).extends(old(heap)),
            final(heap).same_size(old(heap)),
            match result {
                Ok(()) => holder(old(heap).envs@, current as int, name@.lexeme) matches Some(at)
                    && final(heap).changed_at(old(heap), at, name@.lexeme, value),
                Err(e) => holder(old(heap).envs@, current as int, name@.lexeme) is None && e@
                    == undefined(*name) && *final(heap) == *old(heap),
            },
    {
        let mut env: usize = current;
        loop
            invariant
                heap.wf(),
                *heap == *old(heap),
                heap.ok(value),
                holder(heap.envs@, current as int, name@.lexeme) == holder(
                    heap.envs@,
                    env as int,
                    name@.lexeme,
                ),
            decreases env,
        {
            if env >= heap.envs.len() {
                return Err(RuntimeError::undefined_variable(name));
            }
            assert(heap.env_wf(env as int));
            if heap.envs[env].values.contains_key(name.lexeme.as_str()) {
                heap.define(env, name.lexeme.clone(), value);
                return Ok(());
            }
            match heap.envs[env].enclosing {
                Some(parent) => {
                    env = parent;
                },
                None => {
                    return Err(RuntimeError::undefined_variable(name));
                },
            }
        }
    }

    /// Gives `name` the value `value` in the `distance`-th environment
    /// outwards from `current`. Says whether the chain is that long.
    pub fn assign_at(heap: &mut Heap, current: usize, distance: usize, name: &Token, value: LoxValue) -> (done:
        bool)
        requires
            old(heap).wf(),
            old(heap).ok(value),
        ensures
            final(heap).wf(),
            final(heap).extends(old(heap)),
            final(heap).same_size(old(heap)),
            match ancestor(old(heap).envs@, current as int, distance as nat) {
                Some(at) => done && final(heap).changed_at(old(heap), at, name@.lexeme, value),
                None => !done && *final(heap) == *old(heap),
            },
    {
        match Environment::find_ancestor(heap, current, distance) {
            Some(at) => {
                heap.define(at, name.lexeme.clone(), value);
                true
            },
            None => false,
        }
    }
}

impl Heap {
    /// Whether the places that `value` names exist in this heap.
    pub open spec fn ok(&self, value: LoxValue) -> bool {
        value_ok(value, self.envs@.len(), self.classes@.len(), self.instances@.len())
    }

    /// The environment at `i` is enclosed by an earlier one, if by any, and
    /// its values are well-formed.
    pub open spec fn env_wf(&self, i: int) -> bool {
        &&& self.envs@[i].enclosing matches Some(parent) ==> parent < i
        &&& values_ok(
            self.envs@[i].values,
            self.envs@.len(),
            self.classes@.len(),
            self.instances@.len(),
        )
    }

    /// The class at `c` has an earlier class as its superclass, if any, and
    /// its methods were declared in environments that exist.
    pub open spec fn class_wf(&self, c: int) -> bool {
        &&& self.classes@[c].super_class matches Some(parent) ==> parent < c
        &&& methods_ok(self.classes@[c].methods, self.envs@.len())
    }

    /// The instance at `k` has a class that exists, and its fields are
    /// well-formed.
    pub open spec fn instance_wf(&self, k: int) -> bool {
        &&& self.instances@[k].class < self.classes@.len()
        &&& values_ok(
            self.instances@[k].fields,
            self.envs@.len(),
            self.classes@.len(),
            self.instances@.len(),
        )
    }

    /// The heap is well-formed: it has the global environment, and every
    /// place named in it exists. Chains of environments and of superclasses
    /// lead to ever earlier places, and so they end.
    pub open spec fn wf(&self) -> bool {
        &&& self.envs@.len() > 0
        &&& forall|i: int| 0 <= i < self.envs@.len() ==> #[trigger] self.env_wf(i)
        &&& forall|c: int| 0 <= c < self.classes@.len() ==> #[trigger] self.class_wf(c)
        &&& forall|k: int| 0 <= k < self.instances@.len() ==> #[trigger] self.instance_wf(k)
    }

    /// `self` has as many environments, classes and instances as `before`.
    pub open spec fn same_size(&self, before: &Heap) -> bool {
        &&& self.envs@.len() == before.envs@.len()
        &&& self.classes@.len() == before.classes@.len()
        &&& self.instances@.len() == before.instances@.len()
    }

    /// `self` comes after `before`: nothing that `before` holds is gone,
    /// every environment is enclosed as it was, every class is as it was,
    /// and every instance has the class it had.
    pub open spec fn extends(&self, before: &Heap) -> bool {
        &&& before.envs@.len() <= self.envs@.len()
        &&& before.classes@.len() <= self.classes@.len()
        &&& before.instances@.len() <= self.instances@.len()
        &&& forall|i: int|
            0 <= i < before.envs@.len() ==> (#[trigger] self.envs@[i]).enclosing
                == before.envs@[i].enclosing
        &&& forall|c: int|
            0 <= c < before.classes@.len() ==> #[trigger] self.classes@[c] == before.classes@[c]
        &&& forall|k: int|
            0 <= k < before.instances@.len() ==> (#[trigger] self.instances@[k]).class
                == before.instances@[k].class
    }

    /// `self` is `before` but for the environment at `at`, where `name` now
    /// has the value `value`.
    pub open spec fn changed_at(&self, before: &Heap, at: int, name: Seq<char>, value: LoxValue) -> bool {
        &&& 0 <= at < before.envs@.len()
        &&& self.envs@.len() == before.envs@.len()
        &&& self.envs@[at].values@ == before.envs@[at].values@.insert(name, value)
        &&& self.envs@[at].enclosing == before.envs@[at].enclosing
        &&& forall|i: int|
            0 <= i < before.envs@.len() && i != at ==> #[trigger] self.envs@[i] == before.envs@[i]
        &&& self.classes == before.classes
        &&& self.instances == before.instances
    }

    /// A heap with the global environment and nothing else.
    pub fn new() -> (heap: Heap)
        ensures
            heap.wf(),
            heap.envs@.len() == 1,
            heap.classes@.len() == 0,
            heap.instances@.len() == 0,
            heap.envs@[0].enclosing is None,
            heap.envs@[0].values@ == Map::<Seq<char>, LoxValue>::empty(),
    {
        let mut envs: Vec<Environment> = Vec::new();
        envs.push(Environment { enclosing: None, values: Table::new() });
        let heap = Heap { envs, classes: Vec::new(), instances: Vec::new() };
        assert(heap.env_wf(0));
        heap
    }

    /// Whether the places that `value` names exist in this heap.
    pub fn holds(&self, value: &LoxValue) -> (r: bool)
        ensures
            r == self.ok(*value),
    {
        match value {
            LoxValue::Callable(LoxCallable::LoxFunction(function)) => function.closure
                < self.envs.len(),
            LoxValue::Callable(LoxCallable::Class(class)) => *class < self.classes.len(),
            LoxValue::Instance(instance) => *instance < self.instances.len(),
            _ => true,
        }
    }

    /// Whether all values of `table` are well-formed in this heap.
    fn holds_all(&self, table: &Table<LoxValue>) -> (r: bool)
        ensures
            r == values_ok(
                *table,
                self.envs@.len(),
                self.classes@.len(),
                self.instances@.len(),
            ),
    {
        let mut j: usize = 0;
        while j < table.entries.len()
            invariant
                j <= table.entries.len(),
                forall|k: int|
                    0 <= k < j ==> value_ok(
                        (#[trigger] table.entries@[k]).1,
                        self.envs@.len(),
                        self.classes@.len(),
                        self.instances@.len(),
                    ),
            decreases table.entries.len() - j,
        {
            if !self.holds(&table.entries[j].1) {
                return false;
            }
            j += 1;
        }
        true
    }

    /// Whether all methods of `table` were declared in environments of this
    /// heap.
    fn holds_methods(&self, table: &Table<LoxFunction>) -> (r: bool)
        ensures
            r == methods_ok(*table, self.envs@.len()),
    {
        let mut j: usize = 0;
        while j < table.entries.len()
            invariant
                j <= table.entries.len(),
                forall|k: int|
                    0 <= k < j ==> (#[trigger] table.entries@[k]).1.closure < self.envs@.len(),
            decreases table.entries.len() - j,
        {
            if table.entries[j].1.closure >= self.envs.len() {
                return false;
            }
            j += 1;
        }
        true
    }

    /// Whether the heap is well-formed. Whoever did not get the heap from
    /// the functions of this module can find out here.
    pub fn check(&self) -> (r: bool)
        ensures
            r == self.wf(),
    {
        if self.envs.len() == 0 {
            return false;
        }
        let mut i: usize = 0;
        while i < self.envs.len()
            invariant
                i <= self.envs.len(),
                forall|k: int| 0 <= k < i ==> #[trigger] self.env_wf(k),
            decreases self.envs.len() - i,
        {
            let enclosed = match self.envs[i].enclosing {
                Some(parent) => parent < i,
                None => true,
            };
            if !enclosed || !self.holds_all(&self.envs[i].values) {
                assert(!self.env_wf(i as int));
                return false;
            }
            i += 1;
        }
        let mut c: usize = 0;
        while c < self.classes.len()
            invariant
                c <= self.classes.len(),
                forall|k: int| 0 <= k < self.envs@.len() ==> #[trigger] self.env_wf(k),
                forall|k: int| 0 <= k < c ==> #[trigger] self.class_wf(k),
            decreases self.classes.len() - c,
        {
            let below = match self.classes[c].super_class {
                Some(parent) => parent < c,
                None => true,
            };
            if !below || !self.holds_methods(&self.classes[c].methods) {
                assert(!self.class_wf(c as int));
                return false;
            }
            c += 1;
        }
        let mut k: usize = 0;
        while k < self.instances.len()
            invariant
                k <= self.instances.len(),
                forall|j: int| 0 <= j < self.envs@.len() ==> #[trigger] self.env_wf(j),
                forall|j: int| 0 <= j < self.classes@.len() ==> #[trigger] self.class_wf(j),
                forall|j: int| 0 <= j < k ==> #[trigger] self.instance_wf(j),
            decreases self.instances.len() - k,
        {
            if self.instances[k].class >= self.classes.len() || !self.holds_all(
                &self.instances[k].fields,
            ) {
                assert(!self.instance_wf(k as int));
                return false;
            }
            k += 1;
        }
        true
    }

    /// Defines `key` as `value` in the environment at `env`.
    pub fn define(&mut self, env: usize, key: String, value: LoxValue)
        requires
            old(self).wf(),
            env < old(self).envs.len(),
            old(self).ok(value),
        ensures
            final(self).wf(),
            final(self).extends(old(self)),
            final(self).same_size(old(self)),
            final(self).changed_at(old(self), env as int, key@, value),
    {
        assert(self.env_wf(env as int));
        self.envs[env].define(key, value);
        assert forall|i: int| 0 <= i < self.envs.len() implies self.env_wf(i) by {
            assert(old(self).env_wf(i));
            if i != env {
                assert(self.envs@[i] == old(self).envs@[i]);
            }
        }
        assert forall|c: int| 0 <= c < self.classes.len() implies self.class_wf(c) by {
            assert(old(self).class_wf(c));
        }
        assert forall|k: int| 0 <= k < self.instances.len() implies self.instance_wf(k) by {
            assert(old(self).instance_wf(k));
        }
    }

    /// Adds `class` to the classes. Gives its place.
    pub fn add_class(&mut self, class: LoxClass) -> (place: usize)
        requires
            old(self).wf(),
            class.super_class matches Some(parent) ==> parent < old(self).classes.len(),
            methods_ok(class.methods, old(self).envs@.len()),
        ensures
            final(self).wf(),
            final(self).extends(old(self)),
            place == old(self).classes.len(),
            final(self).classes@ == old(self).classes@.push(class),
            final(self).envs == old(self).envs,
            final(self).instances == old(self).instances,
    {
        let place = self.classes.len();
        self.classes.push(class);
        assert forall|i: int| 0 <= i < self.envs.len() implies self.env_wf(i) by {
            assert(old(self).env_wf(i));
        }
        assert forall|c: int| 0 <= c < self.classes.len() implies self.class_wf(c) by {
            if c < place {
                assert(old(self).class_wf(c));
            }
        }
        assert forall|k: int| 0 <= k < self.instances.len() implies self.instance_wf(k) by {
            assert(old(self).instance_wf(k));
        }
        place
    }

    /// Adds an instance of the class at `class`, without fields. Gives its
    /// place.
    pub fn add_instance(&mut self, class: usize) -> (place: usize)
        requires
            old(self).wf(),
            class < old(self).classes.len(),
        ensures
            final(self).wf(),
            final(self).extends(old(self)),
            place == old(self).instances.len(),
            final(self).instances@.len() == old(self).instances@.len() + 1,
            final(self).instances@[place as int].class == class,
            final(self).instances@[place as int].fields@ == Map::<Seq<char>, LoxValue>::empty(),
            forall|k: int|
                0 <= k < old(self).instances.len() ==> final(self).instances@[k] == old(self).instances@[k],
            final(self).envs == old(self).envs,
            final(self).classes == old(self).classes,
    {
        let place = self.instances.len();
        self.instances.push(LoxInstance::new(class));
        assert forall|i: int| 0 <= i < self.envs.len() implies self.env_wf(i) by {
            assert(old(self).env_wf(i));
        }
        assert forall|c: int| 0 <= c < self.classes.len() implies self.class_wf(c) by {
            assert(old(self).class_wf(c));
        }
        assert forall|k: int| 0 <= k < self.instances.len() implies self.instance_wf(k) by {
            if k < place {
                assert(old(self).instance_wf(k));
                assert(self.instances@[k] == old(self).instances@[k]);
            }
        }
        place
    }

    /// Sets the field `name` of the instance at `instance` to `value`.
    pub fn set_field(&mut self, instance: usize, name: &Token, value: LoxValue)
        requires
            old(self).wf(),
            instance < old(self).instances.len(),
            old(self).ok(value),
        ensures
            final(self).wf(),
            final(self).extends(old(self)),
            final(self).same_size(old(self)),
            final(self).instances@[instance as int].fields@ == old(self).instances@[instance as int].fields@.insert(
                name@.lexeme,
                value,
            ),
            forall|k: int|
                0 <= k < old(self).instances.len() && k != instance ==> final(self).instances@[k]
                    == old(self).instances@[k],
            final(self).envs == old(self).envs,
            final(self).classes == old(self).classes,
    {
        assert(self.instance_wf(instance as int));
        self.instances[instance].set(name, value);
        assert forall|i: int| 0 <= i < self.envs.len() implies self.env_wf(i) by {
            assert(old(self).env_wf(i));
        }
        assert forall|c: int| 0 <= c < self.classes.len() implies self.class_wf(c) by {
            assert(old(self).class_wf(c));
        }
        assert forall|k: int| 0 <= k < self.instances.len() implies self.instance_wf(k) by {
            assert(old(self).instance_wf(k));
            if k != instance {
                assert(self.instances@[k] == old(self).instances@[k]);
            }
        }
    }

    /// The method `name` of the class at `class`, its own or inherited.
    pub fn find_method(&self, class: usize, name: &str) -> (method: Option<LoxFunction>)
        requires
            self.wf(),
        ensures
            method == find_method_spec(self.classes@, class as int, name@),
            method matches Some(function) ==> function.closure < self.envs.len(),
    {
        let mut at: usize = class;
        loop
            invariant
                self.wf(),
                find_method_spec(self.classes@, class as int, name@) == find_method_spec(
                    self.classes@,
                    at as int,
                    name@,
                ),
            decreases at,
        {
            if at >= self.classes.len() {
                return None;
            }
            assert(self.class_wf(at as int));
            match self.classes[at].methods.get(name) {
                Some(method) => {
                    return Some(method.clone());
                },
                None => {},
            }
            match self.classes[at].super_class {
                Some(parent) => {
                    at = parent;
                },
                None => {
                    return None;
                },
            }
        }
    }
}

} // verus!
