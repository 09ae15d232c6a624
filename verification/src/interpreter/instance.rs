//! Instances.
use vstd::prelude::*;
use crate::interpreter::values::LoxValue;
use crate::table::Table;
use crate::token::Token;

verus! {

/// An instance: its class, given by its place among the classes, and its
/// fields.
#[derive(Debug)]
pub struct LoxInstance {
    pub class: usize,
    pub fields: Table<LoxValue>,
}

impl LoxInstance {
    /// An instance of the class at `class` without fields.
    pub fn new(class: usize) -> (instance: LoxInstance)
        ensures
            instance.class == class,
            instance.fields@ == Map::<Seq<char>, LoxValue>::empty(),
            instance.fields.entries@.len() == 0,
    {
        LoxInstance { class, fields: Table::new() }
    }

    /// Sets the field `name` to `value`. A field may have the name of a
    /// method, which it then hides.
    pub fn set(&mut self, name: &Token, value: LoxValue)
        ensures
            final(self).class == old(self).class,
            final(self).fields@ == old(self).fields@.insert(name@.lexeme, value),
            crate::table::kept_or(old(self).fields.entries@, final(self).fields.entries@, value),
    {
        let _ = self.fields.insert(name.lexeme.clone(), value);
    }
}

} // verus!
