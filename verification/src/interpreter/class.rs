//! Classes.
use vstd::prelude::*;
use crate::interpreter::values::LoxFunction;
use crate::table::Table;

verus! {

/// A class: its name, its own methods, and its superclass, which is given
/// by its place among the classes.
#[derive(Debug)]
pub struct LoxClass {
    pub name: String,
    pub methods: Table<LoxFunction>,
    pub super_class: Option<usize>,
}

/// The method `name` of the class at `class`: the class's own, or else the
/// one that its superclass has, and so on up the chain.
pub open spec fn find_method_spec(classes: Seq<LoxClass>, class: int, name: Seq<char>) -> Option<
    LoxFunction,
>
    decreases class,
{
    if 0 <= class < classes.len() {
        if classes[class].methods@.contains_key(name) {
            Some(classes[class].methods@[name])
        } else {
            match classes[class].super_class {
                Some(parent) => if parent < class {
                    find_method_spec(classes, parent as int, name)
                } else {
                    None
                },
                None => None,
            }
        }
    } else {
        None
    }
}

/// The number of arguments that the class at `class` takes: as many as its
/// initializer has parameters, and none if it has no initializer.
pub open spec fn class_arity(classes: Seq<LoxClass>, class: int) -> nat {
    match find_method_spec(classes, class, "init"@) {
        Some(initializer) => initializer.declaration.params.len() as nat,
        None => 0,
    }
}

impl LoxClass {
    /// The class `name` with the given methods and superclass.
    pub fn new(name: String, methods: Table<LoxFunction>, super_class: Option<usize>) -> (class:
        LoxClass)
        ensures
            class.name == name,
            class.methods == methods,
            class.super_class == super_class,
    {
        LoxClass { name, methods, super_class }
    }

    /// The name of the class.
    pub fn to_string(&self) -> (text: String)
        ensures
            text@ == self.name@,
    {
        self.name.clone()
    }
}

} // verus!
