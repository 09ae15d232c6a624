//! The table that the resolver fills and the interpreter reads: for each
//! reference to a local variable, how many scopes lie between the reference
//! and the declaration.
use std::collections::HashMap;
use vstd::prelude::*;
use crate::ast::expression::node_id;
use crate::ast::Expr;

verus! {

broadcast use vstd::std_specs::hash::group_hash_axioms;

/// Distances by the identity of the referring expression.
#[derive(Debug)]
pub struct Bindings {
    pub map: HashMap<u64, usize>,
}

impl View for Bindings {
    type V = Map<u64, usize>;

    open spec fn view(&self) -> Map<u64, usize> {
        self.map@
    }
}

/// The table after `expr` was found `depth` scopes from its declaration.
/// An expression that refers to no variable leaves the table as it is.
pub open spec fn bind(table: Map<u64, usize>, expr: Expr, depth: usize) -> Map<u64, usize> {
    match node_id(expr) {
        Some(id) => table.insert(id, depth),
        None => table,
    }
}

/// The distance that `table` holds for `expr`, if any.
pub open spec fn distance(table: Map<u64, usize>, expr: Expr) -> Option<usize> {
    match node_id(expr) {
        Some(id) => if table.contains_key(id) {
            Some(table[id])
        } else {
            None
        },
        None => None,
    }
}

impl Bindings {
    /// The empty table.
    pub fn new() -> (bindings: Bindings)
        ensures
            bindings@ == Map::<u64, usize>::empty(),
    {
        Bindings { map: HashMap::new() }
    }

    /// Records that `expr` stands `depth` scopes from the declaration of
    /// the variable it refers to.
    pub fn resolve(&mut self, expr: &Expr, depth: usize)
        ensures
            final(self)@ == bind(old(self)@, *expr, depth),
    {
        match expr.id() {
            Some(id) => {
                self.map.insert(id, depth);
            },
            None => {},
        }
    }

    /// The distance recorded for `expr`, if any.
    pub fn get_distance(&self, expr: &Expr) -> (found: Option<usize>)
        ensures
            found == distance(self@, *expr),
    {
        match expr.id() {
            Some(id) => match self.map.get(&id) {
                Some(depth) => Some(*depth),
                None => None,
            },
            None => None,
        }
    }
}

/// What is recorded for one expression does not change what is recorded for
/// another: two references to the same name are bound independently, each
/// by its own identity.
pub proof fn lemma_bindings_independent(
    table: Map<u64, usize>,
    first: Expr,
    first_depth: usize,
    second: Expr,
    second_depth: usize,
)
    requires
        node_id(first) is Some,
        node_id(second) is Some,
        node_id(first) != node_id(second),
    ensures
        distance(bind(bind(table, first, first_depth), second, second_depth), first) == Some(
            first_depth,
        ),
        distance(bind(bind(table, first, first_depth), second, second_depth), second) == Some(
            second_depth,
        ),
{
}

} // verus!
