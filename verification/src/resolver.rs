//! The resolver: a static pass that finds, for every reference to a local
//! variable, the scope that declares it.
//!
//! [`resolve_stmts_spec`] says what resolving a list of statements gives;
//! [`Resolver::resolve_stmts`] computes it.
use vstd::prelude::*;
use vstd::string::StringExecFns;
use std::rc::Rc;
use crate::ast::expression::{exprs_view, node_id};
use crate::ast::statement::{methods_view, optional_view, stmts_view};
use crate::ast::{
    Expr, ExprView, FuncDeclaration, FuncDeclarationView, Stmt, StmtView,
};
use crate::bindings::Bindings;
use crate::guard::{release, Scoped};
use crate::text::str_eq;
use crate::table::Table;
use crate::token::{token_views, Token, TokenView};

pub mod error;

pub use error::{ResolveError, ResolveErrorView};

verus! {

/// What kind of function the resolver is inside of.
#[derive(Debug, Clone, Copy, PartialEq, Eq, Structural)]
pub enum FunctionType {
    Outside,
    Function,
    Initializer,
    Method,
}

/// What kind of class the resolver is inside of.
#[derive(Debug, Clone, Copy, PartialEq, Eq, Structural)]
pub enum ClassType {
    Outside,
    Class,
    SubClass,
}

/// The scopes from the outermost to the innermost, each a map from a name
/// to whether the name is defined yet (`true`) or only declared (`false`).
pub type Scopes = Seq<Map<Seq<char>, bool>>;

/// The scopes with a new, empty innermost scope.
pub open spec fn entered(scopes: Scopes) -> Scopes {
    scopes.push(Map::empty())
}

/// The scopes without the innermost scope.
pub open spec fn exited(scopes: Scopes) -> Scopes {
    if scopes.len() > 0 {
        scopes.drop_last()
    } else {
        scopes
    }
}

/// The scopes after the innermost one was told whether `name` is defined.
/// Outside all scopes nothing is recorded.
pub open spec fn marked(scopes: Scopes, name: Seq<char>, defined: bool) -> Scopes {
    if scopes.len() > 0 {
        scopes.update(scopes.len() - 1, scopes.last().insert(name, defined))
    } else {
        scopes
    }
}

/// Whether the innermost scope has `name`.
pub open spec fn has_local(scopes: Scopes, name: Seq<char>) -> bool {
    scopes.len() > 0 && scopes.last().contains_key(name)
}

/// The scopes after the parameters of `params` from index `from` on were
/// declared and defined, up to the first that the innermost scope had
/// already, which stays declared.
pub open spec fn params_marked(scopes: Scopes, params: Seq<TokenView>, from: int) -> Scopes
    decreases params.len() - from,
{
    if 0 <= from < params.len() {
        if has_local(scopes, params[from].lexeme) {
            marked(scopes, params[from].lexeme, false)
        } else {
            params_marked(marked(scopes, params[from].lexeme, true), params, from + 1)
        }
    } else {
        scopes
    }
}

/// The first of the parameters of `params` from index `from` on that the
/// innermost scope has already when its turn comes.
pub open spec fn params_clash(scopes: Scopes, params: Seq<TokenView>, from: int) -> Option<TokenView>
    decreases params.len() - from,
{
    if 0 <= from < params.len() {
        if has_local(scopes, params[from].lexeme) {
            Some(params[from])
        } else {
            params_clash(marked(scopes, params[from].lexeme, true), params, from + 1)
        }
    } else {
        None
    }
}

/// The innermost of the first `upto` scopes that has `name`, or -1.
pub open spec fn innermost(scopes: Scopes, name: Seq<char>, upto: int) -> int
    decreases upto,
{
    if upto <= 0 || upto > scopes.len() {
        -1
    } else if scopes[upto - 1].contains_key(name) {
        upto - 1
    } else {
        innermost(scopes, name, upto - 1)
    }
}

/// The resolver's state as a mathematical value: the scopes, where it
/// stands, and the distances found so far.
pub struct State {
    pub scopes: Scopes,
    pub current_function: FunctionType,
    pub current_class: ClassType,
    pub bindings: Map<u64, usize>,
}

/// What resolving something gives: the state reached, and the error that
/// stopped it, if one did.
pub struct Checked {
    pub state: State,
    pub error: Option<ResolveErrorView>,
}

/// Resolution went through and reached `state`.
pub open spec fn done(state: State) -> Checked {
    Checked { state, error: None }
}

/// Resolution stopped in `state` at `token` for the reason `msg`.
pub open spec fn failed(state: State, token: TokenView, msg: Seq<char>) -> Checked {
    Checked { state, error: Some(ResolveErrorView { token, msg }) }
}

/// The message for a name that its scope has already.
pub open spec fn already_declared() -> Seq<char> {
    "Already a variable with the same name in this scope"@
}

/// `state` inside a new innermost scope.
pub open spec fn begin_scope_spec(state: State) -> State {
    State { scopes: entered(state.scopes), ..state }
}

/// `state` outside its innermost scope.
pub open spec fn end_scope_spec(state: State) -> State {
    State { scopes: exited(state.scopes), ..state }
}

/// Declaring `name`: in the innermost scope the name becomes declared and
/// not yet defined. It is an error if the scope had the name already.
pub open spec fn declare_spec(state: State, name: TokenView) -> Checked {
    let after = State { scopes: marked(state.scopes, name.lexeme, false), ..state };
    if has_local(state.scopes, name.lexeme) {
        failed(after, name, already_declared())
    } else {
        done(after)
    }
}

/// Defining `name`: in the innermost scope the name becomes defined.
pub open spec fn define_spec(state: State, name: Seq<char>) -> State {
    State { scopes: marked(state.scopes, name, true), ..state }
}

/// Declaring and defining the parameters `params`, up to the first that
/// was declared before.
pub open spec fn declare_params_spec(state: State, params: Seq<TokenView>) -> Checked {
    Checked {
        state: State { scopes: params_marked(state.scopes, params, 0), ..state },
        error: match params_clash(state.scopes, params, 0) {
            Some(token) => Some(ResolveErrorView { token, msg: already_declared() }),
            None => None,
        },
    }
}

/// Resolving a reference with identity `id` to `name`: if a scope has the
/// name, the distance from the innermost scope to the innermost scope that
/// has it is recorded for `id`. Otherwise the name is taken to be global and
/// nothing is recorded.
pub open spec fn resolve_local_spec(state: State, id: u64, name: Seq<char>) -> State {
    let found = innermost(state.scopes, name, state.scopes.len() as int);
    if found >= 0 {
        State {
            bindings: state.bindings.insert(id, (state.scopes.len() - 1 - found) as usize),
            ..state
        }
    } else {
        state
    }
}

/// Resolving a read of the variable `name`: an error if the innermost scope
/// has declared the name and not yet defined it.
pub open spec fn expr_var_spec(state: State, name: TokenView) -> Checked {
    if has_local(state.scopes, name.lexeme) && !state.scopes.last()[name.lexeme] {
        failed(state, name, "Can't read local variable in its own initializer."@)
    } else {
        done(resolve_local_spec(state, name.id, name.lexeme))
    }
}

/// Resolving an assignment to `name`: the value first, then the name.
#[verifier::opaque]
pub open spec fn expr_assign_spec(state: State, name: TokenView, value: ExprView) -> Checked
    decreases value, 1nat,
{
    let first = resolve_expr_spec(state, value);
    if first.error is Some {
        first
    } else {
        done(resolve_local_spec(first.state, name.id, name.lexeme))
    }
}

/// Resolving an expression: its parts in the order in which they are
/// evaluated, up to the first error.
#[verifier::opaque]
pub open spec fn resolve_expr_spec(state: State, expr: ExprView) -> Checked
    decreases expr, 0nat,
{
    match expr {
        ExprView::Binary { left, right, .. } => {
            let first = resolve_expr_spec(state, *left);
            if first.error is Some {
                first
            } else {
                resolve_expr_spec(first.state, *right)
            }
        },
        ExprView::Call { callee, arguments, .. } => {
            let first = resolve_expr_spec(state, *callee);
            if first.error is Some {
                first
            } else {
                resolve_exprs_spec(first.state, arguments, 0)
            }
        },
        ExprView::Get { object, .. } => resolve_expr_spec(state, *object),
        ExprView::Grouping { expression } => resolve_expr_spec(state, *expression),
        ExprView::Literal { .. } => done(state),
        ExprView::Logical { left, right, .. } => {
            let first = resolve_expr_spec(state, *left);
            if first.error is Some {
                first
            } else {
                resolve_expr_spec(first.state, *right)
            }
        },
        ExprView::SetProperty { object, value, .. } => {
            let first = resolve_expr_spec(state, *object);
            if first.error is Some {
                first
            } else {
                resolve_expr_spec(first.state, *value)
            }
        },
        ExprView::Super { keyword, .. } => match state.current_class {
            ClassType::Outside => failed(state, keyword, "Can't use 'super' outside of a class"@),
            ClassType::Class => failed(
                state,
                keyword,
                "Can't use 'super' in a class with no superclass"@,
            ),
            ClassType::SubClass => done(resolve_local_spec(state, keyword.id, keyword.lexeme)),
        },
        ExprView::This { keyword } => if state.current_class == ClassType::Outside {
            failed(state, keyword, "Can't use 'this' outside of a class."@)
        } else {
            done(resolve_local_spec(state, keyword.id, keyword.lexeme))
        },
        ExprView::Unary { right, .. } => resolve_expr_spec(state, *right),
        ExprView::Variable { name } => expr_var_spec(state, name),
        ExprView::Assign { name, value } => expr_assign_spec(state, name, *value),
    }
}

/// Resolving the expressions of `exprs` from index `from` on, in order, up
/// to the first error.
#[verifier::opaque]
pub open spec fn resolve_exprs_spec(state: State, exprs: Seq<ExprView>, from: int) -> Checked
    decreases exprs, exprs.len() - from,
{
    if 0 <= from < exprs.len() {
        let first = resolve_expr_spec(state, exprs[from]);
        if first.error is Some {
            first
        } else {
            resolve_exprs_spec(first.state, exprs, from + 1)
        }
    } else {
        done(state)
    }
}

/// The superclass's token as a mathematical value, if there is one.
pub open spec fn parent_view(super_class: Option<Token>) -> Option<TokenView> {
    match super_class {
        Some(parent) => Some(parent@),
        None => None,
    }
}

/// What a class statement does before its methods are resolved: the class's
/// name is declared and defined; a superclass must have another name and is
/// resolved as a variable, and a scope that defines `super` is entered; a
/// scope that defines `this` is entered.
pub open spec fn class_header_spec(
    state: State,
    name: TokenView,
    super_class: Option<TokenView>,
) -> Checked {
    let declared = declare_spec(State { current_class: ClassType::Class, ..state }, name);
    if declared.error is Some {
        declared
    } else {
        let defined = define_spec(declared.state, name.lexeme);
        match super_class {
            Some(parent) => if name.lexeme == parent.lexeme {
                failed(defined, parent, "A class can't inherit from itself."@)
            } else {
                let read = expr_var_spec(
                    State { current_class: ClassType::SubClass, ..defined },
                    parent,
                );
                if read.error is Some {
                    read
                } else {
                    done(
                        define_spec(
                            begin_scope_spec(define_spec(begin_scope_spec(read.state), "super"@)),
                            "this"@,
                        ),
                    )
                }
            },
            None => done(define_spec(begin_scope_spec(defined), "this"@)),
        }
    }
}

/// What kind of function a method named `name` is.
pub open spec fn method_type(name: Seq<char>) -> FunctionType {
    if name == "init"@ {
        FunctionType::Initializer
    } else {
        FunctionType::Method
    }
}

/// Resolving `return`: an error outside all functions, and with a value in
/// an initializer.
#[verifier::opaque]
pub open spec fn resolve_return_spec(state: State, keyword: TokenView, value_expr: Option<ExprView>) -> Checked
    decreases value_expr, 1nat,
{
    if state.current_function == FunctionType::Outside {
        failed(state, keyword, "Can't return from top level code"@)
    } else {
        match value_expr {
            Some(value) => if state.current_function == FunctionType::Initializer {
                failed(state, keyword, "Can't return a value fron an initializer."@)
            } else {
                resolve_expr_spec(state, value)
            },
            None => done(state),
        }
    }
}

/// Resolving a variable declaration: the name is declared, the initializer
/// is resolved, and only then is the name defined.
#[verifier::opaque]
pub open spec fn resolve_var_spec(state: State, name: TokenView, initializer: Option<ExprView>) -> Checked
    decreases initializer, 1nat,
{
    let declared = declare_spec(state, name);
    if declared.error is Some {
        declared
    } else {
        let first = match initializer {
            Some(init) => resolve_expr_spec(declared.state, init),
            None => declared,
        };
        if first.error is Some {
            first
        } else {
            done(define_spec(first.state, name.lexeme))
        }
    }
}

/// Resolving a block: its statements in a scope of their own, which is left
/// also when an error stopped them.
#[verifier::opaque]
pub open spec fn resolve_block_spec(state: State, stmts: Seq<StmtView>) -> Checked
    decreases stmts, stmts.len() + 1,
{
    let inner = resolve_stmts_spec(begin_scope_spec(state), stmts, 0);
    Checked { state: end_scope_spec(inner.state), error: inner.error }
}

/// Resolving a function declaration: the name is declared and defined, so
/// that the body may refer to it, and the function is resolved.
#[verifier::opaque]
pub open spec fn visit_stmt_function_spec(state: State, declaration: FuncDeclarationView) -> Checked
    decreases declaration, 1nat,
{
    let declared = declare_spec(state, declaration.name);
    if declared.error is Some {
        declared
    } else {
        resolve_function_spec(
            define_spec(declared.state, declaration.name.lexeme),
            declaration,
            FunctionType::Function,
        )
    }
}

/// Resolving a class: what comes before its methods, then the methods. The
/// scopes entered for them are left and the resolver stands where it stood
/// before, also when an error stopped it.
#[verifier::opaque]
pub open spec fn resolve_class_spec(
    state: State,
    name: TokenView,
    super_class: Option<TokenView>,
    methods: Seq<FuncDeclarationView>,
) -> Checked
    decreases methods, methods.len() + 1,
{
    let header = class_header_spec(state, name, super_class);
    if header.error is Some {
        Checked {
            state: State { current_class: state.current_class, ..header.state },
            error: header.error,
        }
    } else {
        let body = resolve_methods_spec(header.state, methods, 0);
        Checked {
            state: State {
                current_class: state.current_class,
                scopes: if super_class is Some {
                    exited(exited(body.state.scopes))
                } else {
                    exited(body.state.scopes)
                },
                ..body.state
            },
            error: body.error,
        }
    }
}

/// Resolving a statement, up to the first error.
#[verifier::opaque]
pub open spec fn resolve_stmt_spec(state: State, stmt: StmtView) -> Checked
    decreases stmt, 0nat,
{
    match stmt {
        StmtView::Expression(expr) => resolve_expr_spec(state, expr),
        StmtView::Function(declaration) => visit_stmt_function_spec(state, declaration),
        StmtView::If { condition, then_branch, else_branch } => {
            let first = resolve_expr_spec(state, condition);
            if first.error is Some {
                first
            } else {
                let second = resolve_stmt_spec(first.state, *then_branch);
                if second.error is Some {
                    second
                } else {
                    match else_branch {
                        Some(other) => resolve_stmt_spec(second.state, *other),
                        None => second,
                    }
                }
            }
        },
        StmtView::Print(expr) => resolve_expr_spec(state, expr),
        StmtView::Return { keyword, value_expr } => resolve_return_spec(state, keyword, value_expr),
        StmtView::Var { name, initializer } => resolve_var_spec(state, name, initializer),
        StmtView::While { condition, body } => {
            let first = resolve_expr_spec(state, condition);
            if first.error is Some {
                first
            } else {
                resolve_stmt_spec(first.state, *body)
            }
        },
        StmtView::Block { statements } => resolve_block_spec(state, statements),
        StmtView::Class { name, super_class, methods } => resolve_class_spec(
            state,
            name,
            super_class,
            methods,
        ),
    }
}

/// Resolving the statements of `stmts` from index `from` on, in order, up
/// to the first error.
#[verifier::opaque]
pub open spec fn resolve_stmts_spec(state: State, stmts: Seq<StmtView>, from: int) -> Checked
    decreases stmts, stmts.len() - from,
{
    if 0 <= from < stmts.len() {
        let first = resolve_stmt_spec(state, stmts[from]);
        if first.error is Some {
            first
        } else {
            resolve_stmts_spec(first.state, stmts, from + 1)
        }
    } else {
        done(state)
    }
}

/// Resolving a function of kind `typ`: a scope is entered that defines the
/// parameters, the body is resolved in it, and the scope is left, also when
/// an error stopped the body.
#[verifier::opaque]
pub open spec fn resolve_function_spec(
    state: State,
    declaration: FuncDeclarationView,
    typ: FunctionType,
) -> Checked
    decreases declaration, 0nat,
{
    let params = declare_params_spec(
        begin_scope_spec(State { current_function: typ, ..state }),
        declaration.params,
    );
    let body = if params.error is Some {
        params
    } else {
        resolve_stmts_spec(params.state, declaration.body, 0)
    };
    Checked {
        state: State { current_function: state.current_function, ..end_scope_spec(body.state) },
        error: body.error,
    }
}

/// Resolving the methods of `methods` from index `from` on, in order, up to
/// the first error.
#[verifier::opaque]
pub open spec fn resolve_methods_spec(
    state: State,
    methods: Seq<FuncDeclarationView>,
    from: int,
) -> Checked
    decreases methods, methods.len() - from,
{
    if 0 <= from < methods.len() {
        let first = resolve_function_spec(
            state,
            methods[from],
            method_type(methods[from].name.lexeme),
        );
        if first.error is Some {
            first
        } else {
            resolve_methods_spec(first.state, methods, from + 1)
        }
    } else {
        done(state)
    }
}

/// The scopes of `scopes` as maps.
pub open spec fn scope_views(scopes: Seq<Table<bool>>) -> Scopes {
    Seq::new(scopes.len(), |i: int| scopes[i]@)
}

/// Where a resolver goes back to when it leaves what it entered: the
/// number of scopes, and the kinds of function and class around it.
#[derive(Debug)]
pub struct ScopeMark {
    pub depth: usize,
    pub function: FunctionType,
    pub class: ClassType,
}

/// The resolver.
#[derive(Debug)]
pub struct Resolver {
    pub scopes: Vec<Table<bool>>,
    pub current_function: FunctionType,
    pub current_class: ClassType,
}

/// What a resolving function promises: it reaches the state, and returns
/// the error, that `expected` gives, and it leaves as many scopes as it
/// found.
pub open spec fn agrees(
    before: Resolver,
    after: Resolver,
    binder: Map<u64, usize>,
    result: Result<(), ResolveError>,
    expected: Checked,
) -> bool {
    &&& after.state(binder) == expected.state
    &&& after.scopes@.len() == before.scopes@.len()
    &&& match result {
        Ok(()) => expected.error is None,
        Err(e) => expected.error == Some(e@),
    }
}

impl Resolver {
    /// The state of the resolver together with the distances in `binder`.
    pub open spec fn state(&self, binder: Map<u64, usize>) -> State {
        State {
            scopes: scope_views(self.scopes@),
            current_function: self.current_function,
            current_class: self.current_class,
            bindings: binder,
        }
    }

    /// Whether `self` stands in a function and a class of the same kinds as
    /// `other`.
    pub open spec fn same_place(&self, other: &Resolver) -> bool {
        self.current_function == other.current_function && self.current_class
            == other.current_class
    }

    /// A resolver outside all scopes, functions and classes.
    pub fn new() -> (resolver: Resolver)
        ensures
            resolver.scopes@.len() == 0,
            resolver.current_function == FunctionType::Outside,
            resolver.current_class == ClassType::Outside,
    {
        Resolver {
            scopes: Vec::new(),
            current_function: FunctionType::Outside,
            current_class: ClassType::Outside,
        }
    }

    fn begin_scope(&mut self)
        ensures
            scope_views(final(self).scopes@) == entered(scope_views(old(self).scopes@)),
            final(self).scopes@.len() == old(self).scopes@.len() + 1,
            final(self).same_place(old(self)),
    {
        self.scopes.push(Table::new());
        assert(scope_views(self.scopes@) =~= entered(scope_views(old(self).scopes@)));
    }

    fn end_scope(&mut self)
        ensures
            scope_views(final(self).scopes@) == exited(scope_views(old(self).scopes@)),
            old(self).scopes@.len() > 0 ==> final(self).scopes@.len() == old(self).scopes@.len()
                - 1,
            final(self).same_place(old(self)),
    {
        self.scopes.pop();
        assert(scope_views(self.scopes@) =~= exited(scope_views(old(self).scopes@)));
    }

    /// Tells the innermost scope whether `name` is defined. Says whether
    /// the scope had the name before.
    fn mark_defined(&mut self, name: &String, defined: bool) -> (had: bool)
        ensures
            had == has_local(scope_views(old(self).scopes@), name@),
            scope_views(final(self).scopes@) == marked(
                scope_views(old(self).scopes@),
                name@,
                defined,
            ),
            final(self).scopes@.len() == old(self).scopes@.len(),
            final(self).same_place(old(self)),
    {
        if self.scopes.len() == 0 {
            return false;
        }
        let last = self.scopes.len() - 1;
        let had = self.scopes[last].insert(name.clone(), defined);
        assert(scope_views(self.scopes@) =~= marked(
            scope_views(old(self).scopes@),
            name@,
            defined,
        ));
        had
    }

    fn declare(&mut self, name: &Token) -> (result: Result<(), ResolveError>)
        ensures
            scope_views(final(self).scopes@) == marked(
                scope_views(old(self).scopes@),
                name@.lexeme,
                false,
            ),
            final(self).scopes@.len() == old(self).scopes@.len(),
            final(self).same_place(old(self)),
            match result {
                Ok(()) => !has_local(scope_views(old(self).scopes@), name@.lexeme),
                Err(e) => has_local(scope_views(old(self).scopes@), name@.lexeme) && e@ == (
                ResolveErrorView { token: name@, msg: already_declared() }),
            },
    {
        if self.mark_defined(&name.lexeme, false) {
            return Err(
                ResolveError::new(
                    name.clone(),
                    String::from_str("Already a variable with the same name in this scope"),
                ),
            );
        }
        Ok(())
    }

    fn define(&mut self, name: &Token)
        ensures
            scope_views(final(self).scopes@) == marked(
                scope_views(old(self).scopes@),
                name@.lexeme,
                true,
            ),
            final(self).scopes@.len() == old(self).scopes@.len(),
            final(self).same_place(old(self)),
    {
        let _ = self.mark_defined(&name.lexeme, true);
    }

    fn resolve_local(&self, binder: &mut Bindings, expr: &Expr, name: &Token)
        requires
            node_id(*expr) is Some,
        ensures
            self.state(final(binder)@) == resolve_local_spec(
                self.state(old(binder)@),
                node_id(*expr)->0,
                name@.lexeme,
            ),
    {
        let mut upto: usize = self.scopes.len();
        while upto > 0
            invariant
                upto <= self.scopes.len(),
                innermost(scope_views(self.scopes@), name@.lexeme, self.scopes.len() as int)
                    == innermost(scope_views(self.scopes@), name@.lexeme, upto as int),
                *binder == *old(binder),
                node_id(*expr) is Some,
            decreases upto,
        {
            assert(scope_views(self.scopes@)[upto - 1] == self.scopes[upto - 1]@);
            if self.scopes[upto - 1].contains_key(name.lexeme.as_str()) {
                binder.resolve(expr, self.scopes.len() - upto);
                return ;
            }
            upto -= 1;
        }
    }

    fn expr_var(&self, binder: &mut Bindings, expr: &Expr, name: &Token) -> (result: Result<
        (),
        ResolveError,
    >)
        requires
            node_id(*expr) == Some(name.id),
        ensures
            agrees(
                *self,
                *self,
                final(binder)@,
                result,
                expr_var_spec(self.state(old(binder)@), name@),
            ),
    {
        if self.scopes.len() > 0 {
            assert(scope_views(self.scopes@).last() == self.scopes[self.scopes.len() - 1]@);
            match self.scopes[self.scopes.len() - 1].get(name.lexeme.as_str()) {
                Some(defined) => {
                    if !*defined {
                        return Err(
                            ResolveError::new(
                                name.clone(),
                                String::from_str(
                                    "Can't read local variable in its own initializer.",
                                ),
                            ),
                        );
                    }
                },
                None => {},
            }
        }
        self.resolve_local(binder, expr, name);
        Ok(())
    }

    /// The place to come back to after what is about to be entered.
    fn mark(&self) -> (mark: ScopeMark)
        ensures
            mark.depth == self.scopes.len(),
            mark.function == self.current_function,
            mark.class == self.current_class,
    {
        ScopeMark {
            depth: self.scopes.len(),
            function: self.current_function,
            class: self.current_class,
        }
    }

    /// Resolves `stmts` in order and stops at the first error. The distances
    /// found are recorded in `binder`.
    pub fn resolve_stmts(&mut self, binder: &mut Bindings, stmts: &Vec<Stmt>) -> (result: Result<
        (),
        ResolveError,
    >)
        ensures
            agrees(
                *old(self),
                *final(self),
                final(binder)@,
                result,
                resolve_stmts_spec(old(self).state(old(binder)@), stmts_view(*stmts), 0),
            ),
            final(self).same_place(old(self)),
        decreases stmts, 0nat,
    {
        proof {
            reveal(resolve_stmts_spec);
            reveal(resolve_stmt_spec);
        }
        let mut i: usize = 0;
        while i < stmts.len()
            invariant
                i <= stmts.len(),
                self.scopes@.len() == old(self).scopes@.len(),
                self.same_place(old(self)),
                resolve_stmts_spec(old(self).state(old(binder)@), stmts_view(*stmts), 0) == resolve_stmts_spec(
                    self.state(binder@),
                    stmts_view(*stmts),
                    i as int,
                ),
            decreases stmts.len() - i,
        {
            proof {
                reveal(resolve_stmts_spec);
                reveal(resolve_stmt_spec);
            }
            match self.resolve_stmt(binder, &stmts[i]) {
                Err(e) => {
                    return Err(e);
                },
                Ok(()) => {},
            }
            i += 1;
        }
        Ok(())
    }

    fn resolve_stmt(&mut self, binder: &mut Bindings, stmt: &Stmt) -> (result: Result<
        (),
        ResolveError,
    >)
        ensures
            agrees(
                *old(self),
                *final(self),
                final(binder)@,
                result,
                resolve_stmt_spec(old(self).state(old(binder)@), stmt@),
            ),
            final(self).same_place(old(self)),
        decreases stmt, 0nat,
    {
        proof {
            reveal(resolve_stmt_spec);
            reveal(visit_stmt_function_spec);
            reveal(resolve_block_spec);
            reveal(resolve_class_spec);
        }
        match stmt {
            Stmt::Expression(expr) => self.resolve_expr(binder, expr),
            Stmt::Function(func_declaration) => self.visit_stmt_function(binder, func_declaration),
            Stmt::If { condition, then_branch, else_branch } => {
                match self.resolve_expr(binder, condition) {
                    Err(e) => {
                        return Err(e);
                    },
                    Ok(()) => {},
                }
                // Both branches are resolved: either may run.
                match self.resolve_stmt(binder, then_branch) {
                    Err(e) => {
                        return Err(e);
                    },
                    Ok(()) => {},
                }
                match else_branch {
                    Some(other) => self.resolve_stmt(binder, other),
                    None => Ok(()),
                }
            },
            Stmt::Print(expr) => self.resolve_expr(binder, expr),
            Stmt::Return { keyword, value_expr } => self.resolve_return(binder, keyword, value_expr),
            Stmt::Var { name, initializer } => self.resolve_var(binder, name, initializer),
            Stmt::While { condition, body } => {
                match self.resolve_expr(binder, condition) {
                    Err(e) => {
                        return Err(e);
                    },
                    Ok(()) => {},
                }
                self.resolve_stmt(binder, body)
            },
            Stmt::Block { statements } => self.resolve_block(binder, statements),
            Stmt::Class { name, super_class, methods } => self.resolve_stmt_class(
                binder,
                name,
                super_class,
                methods,
            ),
        }
    }

    fn resolve_return(
        &mut self,
        binder: &mut Bindings,
        keyword: &Token,
        value_expr: &Option<Expr>,
    ) -> (result: Result<(), ResolveError>)
        ensures
            agrees(
                *old(self),
                *final(self),
                final(binder)@,
                result,
                resolve_return_spec(
                    old(self).state(old(binder)@),
                    keyword@,
                    optional_view(*value_expr),
                ),
            ),
            final(self).same_place(old(self)),
        decreases value_expr, 1nat,
    {
        proof {
            reveal(resolve_return_spec);
        }
        if self.current_function == FunctionType::Outside {
            return Err(
                ResolveError::new(
                    keyword.clone(),
                    String::from_str("Can't return from top level code"),
                ),
            );
        }
        match value_expr {
            Some(value) => {
                if self.current_function == FunctionType::Initializer {
                    return Err(
                        ResolveError::new(
                            keyword.clone(),
                            String::from_str("Can't return a value fron an initializer."),
                        ),
                    );
                }
                self.resolve_expr(binder, value)
            },
            None => Ok(()),
        }
    }

    /// Resolves what comes before the methods of a class.
    fn class_header(
        &mut self,
        binder: &mut Bindings,
        name: &Token,
        super_class: &Option<Token>,
    ) -> (result: Result<(), ResolveError>)
        ensures
            final(self).state(final(binder)@) == class_header_spec(
                old(self).state(old(binder)@),
                name@,
                parent_view(*super_class),
            ).state,
            final(self).current_function == old(self).current_function,
            match result {
                Ok(()) => {
                    &&& class_header_spec(
                        old(self).state(old(binder)@),
                        name@,
                        parent_view(*super_class),
                    ).error is None
                    &&& final(self).scopes@.len() == old(self).scopes@.len() + if super_class is Some {
                        2int
                    } else {
                        1int
                    }
                },
                Err(e) => {
                    &&& class_header_spec(
                        old(self).state(old(binder)@),
                        name@,
                        parent_view(*super_class),
                    ).error == Some(e@)
                    &&& final(self).scopes@.len() == old(self).scopes@.len()
                },
            },
    {
        self.current_class = ClassType::Class;
        match self.declare(name) {
            Err(e) => {
                return Err(e);
            },
            Ok(()) => {},
        }
        self.define(name);
        match super_class {
            Some(parent) => {
                // class Foo < Foo {...}
                if str_eq(name.lexeme.as_str(), parent.lexeme.as_str()) {
                    return Err(
                        ResolveError::new(
                            parent.clone(),
                            String::from_str("A class can't inherit from itself."),
                        ),
                    );
                }
                self.current_class = ClassType::SubClass;
                let variable = Expr::Variable { name: parent.clone() };
                match self.expr_var(binder, &variable, parent) {
                    Err(e) => {
                        return Err(e);
                    },
                    Ok(()) => {},
                }
                // The scope of `super`.
                self.begin_scope();
                let _ = self.mark_defined(&String::from_str("super"), true);
            },
            None => {},
        }
        self.begin_scope();
        let _ = self.mark_defined(&String::from_str("this"), true);
        Ok(())
    }

    fn resolve_stmt_class(
        &mut self,
        binder: &mut Bindings,
        name: &Token,
        super_class: &Option<Token>,
        methods: &Vec<Rc<FuncDeclaration>>,
    ) -> (result: Result<(), ResolveError>)
        ensures
            agrees(
                *old(self),
                *final(self),
                final(binder)@,
                result,
                resolve_class_spec(
                    old(self).state(old(binder)@),
                    name@,
                    parent_view(*super_class),
                    methods_view(*methods),
                ),
            ),
            final(self).same_place(old(self)),
        decreases methods, 1nat,
    {
        proof {
            reveal(resolve_class_spec);
            reveal(resolve_methods_spec);
        }
        let mark = self.mark();
        let header = self.class_header(binder, name, super_class);
        let result = match header {
            Err(e) => Err(e),
            Ok(()) => self.resolve_methods(binder, methods),
        };
        let ghost inside = *self;
        release(self, mark);
        proof {
            let views = scope_views(inside.scopes@);
            if header is Err {
                assert(scope_views(self.scopes@) =~= views);
            } else if super_class is Some {
                assert(scope_views(self.scopes@) =~= exited(exited(views)));
            } else {
                assert(scope_views(self.scopes@) =~= exited(views));
            }
        }
        result
    }

    fn resolve_methods(&mut self, binder: &mut Bindings, methods: &Vec<Rc<FuncDeclaration>>) -> (result:
        Result<(), ResolveError>)
        ensures
            agrees(
                *old(self),
                *final(self),
                final(binder)@,
                result,
                resolve_methods_spec(old(self).state(old(binder)@), methods_view(*methods), 0),
            ),
            final(self).same_place(old(self)),
        decreases methods, 0nat,
    {
        proof {
            reveal(resolve_methods_spec);
            reveal(resolve_function_spec);
        }
        let mut i: usize = 0;
        while i < methods.len()
            invariant
                i <= methods.len(),
                self.scopes@.len() == old(self).scopes@.len(),
                self.same_place(old(self)),
                resolve_methods_spec(old(self).state(old(binder)@), methods_view(*methods), 0)
                    == resolve_methods_spec(self.state(binder@), methods_view(*methods), i as int),
            decreases methods.len() - i,
        {
            proof {
                reveal(resolve_methods_spec);
                reveal(resolve_function_spec);
            }
            let method = &methods[i];
            let declaration = if str_eq(method.name.lexeme.as_str(), "init") {
                FunctionType::Initializer
            } else {
                FunctionType::Method
            };
            match self.resolve_function(binder, method, declaration) {
                Err(e) => {
                    return Err(e);
                },
                Ok(()) => {},
            }
            i += 1;
        }
        Ok(())
    }

    fn visit_stmt_function(&mut self, binder: &mut Bindings, func_declaration: &FuncDeclaration) -> (result:
        Result<(), ResolveError>)
        ensures
            agrees(
                *old(self),
                *final(self),
                final(binder)@,
                result,
                visit_stmt_function_spec(old(self).state(old(binder)@), func_declaration@),
            ),
            final(self).same_place(old(self)),
        decreases func_declaration, 1nat,
    {
        proof {
            reveal(visit_stmt_function_spec);
            reveal(resolve_function_spec);
        }
        match self.declare(&func_declaration.name) {
            Err(e) => {
                return Err(e);
            },
            Ok(()) => {},
        }
        self.define(&func_declaration.name);
        self.resolve_function(binder, func_declaration, FunctionType::Function)
    }

    /// Declares and defines the parameters of a function.
    fn declare_params(&mut self, params: &Vec<Token>) -> (result: Result<(), ResolveError>)
        ensures
            scope_views(final(self).scopes@) == params_marked(
                scope_views(old(self).scopes@),
                token_views(params@),
                0,
            ),
            final(self).scopes@.len() == old(self).scopes@.len(),
            final(self).same_place(old(self)),
            match result {
                Ok(()) => params_clash(scope_views(old(self).scopes@), token_views(params@), 0) is None,
                Err(e) => params_clash(scope_views(old(self).scopes@), token_views(params@), 0) matches Some(
                    token,
                ) && e@ == (ResolveErrorView { token, msg: already_declared() }),
            },
    {
        let mut i: usize = 0;
        while i < params.len()
            invariant
                i <= params.len(),
                self.scopes@.len() == old(self).scopes@.len(),
                self.same_place(old(self)),
                params_marked(scope_views(old(self).scopes@), token_views(params@), 0) == params_marked(
                    scope_views(self.scopes@),
                    token_views(params@),
                    i as int,
                ),
                params_clash(scope_views(old(self).scopes@), token_views(params@), 0) == params_clash(
                    scope_views(self.scopes@),
                    token_views(params@),
                    i as int,
                ),
            decreases params.len() - i,
        {
            let ghost before = scope_views(self.scopes@);
            match self.declare(&params[i]) {
                Err(e) => {
                    return Err(e);
                },
                Ok(()) => {},
            }
            self.define(&params[i]);
            proof {
                let word = params[i as int]@.lexeme;
                if before.len() > 0 {
                    assert(before.last().insert(word, false).insert(word, true) =~= before.last().insert(
                        word,
                        true,
                    ));
                }
                assert(scope_views(self.scopes@) =~= marked(before, word, true));
            }
            i += 1;
        }
        Ok(())
    }

    /// Resolves a function or a method of kind `typ`.
    fn resolve_function(
        &mut self,
        binder: &mut Bindings,
        func_declaration: &FuncDeclaration,
        typ: FunctionType,
    ) -> (result: Result<(), ResolveError>)
        ensures
            agrees(
                *old(self),
                *final(self),
                final(binder)@,
                result,
                resolve_function_spec(old(self).state(old(binder)@), func_declaration@, typ),
            ),
            final(self).same_place(old(self)),
        decreases func_declaration, 0nat,
    {
        proof {
            reveal(resolve_function_spec);
            reveal(resolve_stmts_spec);
        }
        let mark = self.mark();
        self.current_function = typ;
        self.begin_scope();
        let result = match self.declare_params(&func_declaration.params) {
            Err(e) => Err(e),
            Ok(()) => self.resolve_stmts(binder, &func_declaration.body),
        };
        let ghost inside = *self;
        release(self, mark);
        assert(scope_views(self.scopes@) =~= exited(scope_views(inside.scopes@)));
        result
    }

    fn resolve_var(&mut self, binder: &mut Bindings, name: &Token, initializer: &Option<Expr>) -> (result:
        Result<(), ResolveError>)
        ensures
            agrees(
                *old(self),
                *final(self),
                final(binder)@,
                result,
                resolve_var_spec(
                    old(self).state(old(binder)@),
                    name@,
                    optional_view(*initializer),
                ),
            ),
            final(self).same_place(old(self)),
        decreases initializer, 1nat,
    {
        proof {
            reveal(resolve_var_spec);
        }
        // A variable is declared before its initializer is resolved and
        // defined after it, so that the initializer cannot read it.
        match self.declare(name) {
            Err(e) => {
                return Err(e);
            },
            Ok(()) => {},
        }
        match initializer {
            Some(init) => {
                match self.resolve_expr(binder, init) {
                    Err(e) => {
                        return Err(e);
                    },
                    Ok(()) => {},
                }
            },
            None => {},
        }
        self.define(name);
        Ok(())
    }

    fn resolve_block(&mut self, binder: &mut Bindings, stmts: &Vec<Stmt>) -> (result: Result<
        (),
        ResolveError,
    >)
        ensures
            agrees(
                *old(self),
                *final(self),
                final(binder)@,
                result,
                resolve_block_spec(old(self).state(old(binder)@), stmts_view(*stmts)),
            ),
            final(self).same_place(old(self)),
        decreases stmts, 1nat,
    {
        proof {
            reveal(resolve_block_spec);
            reveal(resolve_stmts_spec);
        }
        self.begin_scope();
        let res = self.resolve_stmts(binder, stmts);
        self.end_scope();
        res
    }

    fn resolve_exprs(&mut self, binder: &mut Bindings, exprs: &Vec<Expr>) -> (result: Result<
        (),
        ResolveError,
    >)
        ensures
            agrees(
                *old(self),
                *final(self),
                final(binder)@,
                result,
                resolve_exprs_spec(old(self).state(old(binder)@), exprs_view(exprs@), 0),
            ),
            *final(self) == *old(self),
        decreases exprs, 0nat,
    {
        proof {
            reveal(resolve_exprs_spec);
            reveal(resolve_expr_spec);
        }
        let mut i: usize = 0;
        while i < exprs.len()
            invariant
                i <= exprs.len(),
                *self == *old(self),
                resolve_exprs_spec(old(self).state(old(binder)@), exprs_view(exprs@), 0) == resolve_exprs_spec(
                    self.state(binder@),
                    exprs_view(exprs@),
                    i as int,
                ),
            decreases exprs.len() - i,
        {
            proof {
                reveal(resolve_exprs_spec);
                reveal(resolve_expr_spec);
            }
            match self.resolve_expr(binder, &exprs[i]) {
                Err(e) => {
                    return Err(e);
                },
                Ok(()) => {},
            }
            i += 1;
        }
        Ok(())
    }

    fn resolve_expr(&mut self, binder: &mut Bindings, expr: &Expr) -> (result: Result<
        (),
        ResolveError,
    >)
        ensures
            agrees(
                *old(self),
                *final(self),
                final(binder)@,
                result,
                resolve_expr_spec(old(self).state(old(binder)@), expr@),
            ),
            *final(self) == *old(self),
        decreases expr, 0nat,
    {
        proof {
            reveal(resolve_expr_spec);
            reveal(resolve_exprs_spec);
            reveal(expr_assign_spec);
        }
        match expr {
            Expr::Binary { left, operator: _, right } => {
                match self.resolve_expr(binder, left) {
                    Err(e) => {
                        return Err(e);
                    },
                    Ok(()) => {},
                }
                self.resolve_expr(binder, right)
            },
            Expr::Call { callee, paren: _, arguments } => {
                match self.resolve_expr(binder, callee) {
                    Err(e) => {
                        return Err(e);
                    },
                    Ok(()) => {},
                }
                self.resolve_exprs(binder, arguments)
            },
            Expr::Grouping { expression } => self.resolve_expr(binder, expression),
            Expr::Literal { value: _ } => Ok(()),
            Expr::Logical { left, operator: _, right } => {
                match self.resolve_expr(binder, left) {
                    Err(e) => {
                        return Err(e);
                    },
                    Ok(()) => {},
                }
                self.resolve_expr(binder, right)
            },
            Expr::Unary { operator: _, right } => self.resolve_expr(binder, right),
            Expr::Variable { name } => self.expr_var(binder, expr, name),
            Expr::Assign { name, value } => self.expr_assign(binder, expr, name, value),
            Expr::Get { object, name: _ } => self.resolve_expr(binder, object),
            Expr::SetProperty { object, name: _, value } => {
                match self.resolve_expr(binder, object) {
                    Err(e) => {
                        return Err(e);
                    },
                    Ok(()) => {},
                }
                self.resolve_expr(binder, value)
            },
            Expr::This { keyword } => {
                if self.current_class == ClassType::Outside {
                    return Err(
                        ResolveError::new(
                            keyword.clone(),
                            String::from_str("Can't use 'this' outside of a class."),
                        ),
                    );
                }
                self.resolve_local(binder, expr, keyword);
                Ok(())
            },
            Expr::Super { keyword, method: _ } => {
                match self.current_class {
                    ClassType::Outside => {
                        return Err(
                            ResolveError::new(
                                keyword.clone(),
                                String::from_str("Can't use 'super' outside of a class"),
                            ),
                        );
                    },
                    ClassType::SubClass => {},
                    ClassType::Class => {
                        return Err(
                            ResolveError::new(
                                keyword.clone(),
                                String::from_str("Can't use 'super' in a class with no superclass"),
                            ),
                        );
                    },
                }
                self.resolve_local(binder, expr, keyword);
                Ok(())
            },
        }
    }

    fn expr_assign(&mut self, binder: &mut Bindings, assign_expr: &Expr, name: &Token, value: &Expr) -> (result:
        Result<(), ResolveError>)
        requires
            node_id(*assign_expr) == Some(name.id),
        ensures
            agrees(
                *old(self),
                *final(self),
                final(binder)@,
                result,
                expr_assign_spec(old(self).state(old(binder)@), name@, value@),
            ),
            *final(self) == *old(self),
        decreases value, 1nat,
    {
        proof {
            reveal(expr_assign_spec);
            reveal(resolve_expr_spec);
        }
        match self.resolve_expr(binder, value) {
            Err(e) => {
                return Err(e);
            },
            Ok(()) => {},
        }
        self.resolve_local(binder, assign_expr, name);
        Ok(())
    }
}

impl Scoped for Resolver {
    type Mark = ScopeMark;

    open spec fn admits(&self, mark: &ScopeMark) -> bool {
        mark.depth <= self.scopes.len()
    }

    open spec fn left(&self, mark: &ScopeMark, after: &Resolver) -> bool {
        &&& after.scopes@ == self.scopes@.take(mark.depth as int)
        &&& after.current_function == mark.function
        &&& after.current_class == mark.class
    }

    fn leave(&mut self, mark: ScopeMark) {
        self.scopes.truncate(mark.depth);
        self.current_function = mark.function;
        self.current_class = mark.class;
    }
}

/// What `innermost` finds: a scope among the first `upto` that has the
/// name, inside of which none of them has it; or nothing, if none has it.
pub proof fn lemma_innermost(scopes: Scopes, name: Seq<char>, upto: int)
    requires
        0 <= upto <= scopes.len(),
    ensures
        -1 <= innermost(scopes, name, upto) < upto,
        innermost(scopes, name, upto) >= 0 ==> scopes[innermost(scopes, name, upto)].contains_key(
            name,
        ),
        forall|i: int|
            innermost(scopes, name, upto) < i < upto ==> !(#[trigger] scopes[i]).contains_key(name),
    decreases upto,
{
    if upto > 0 && !scopes[upto - 1].contains_key(name) {
        lemma_innermost(scopes, name, upto - 1);
    }
}

/// The distance of a reference is the number of scopes between it and the
/// declaration: if `depth` scopes from the innermost one a scope has the
/// name, and no scope inside of that one has it, then `depth` is what is
/// recorded for the reference. A name that no scope has is left to the
/// globals, and nothing is recorded.
pub proof fn lemma_distance(state: State, id: u64, name: Seq<char>, depth: usize)
    requires
        depth < state.scopes.len() <= usize::MAX,
        state.scopes[state.scopes.len() - 1 - depth].contains_key(name),
        forall|i: int|
            state.scopes.len() - 1 - depth < i < state.scopes.len() ==> !(
            #[trigger] state.scopes[i]).contains_key(name),
    ensures
        resolve_local_spec(state, id, name).bindings == state.bindings.insert(id, depth),
{
    lemma_innermost(state.scopes, name, state.scopes.len() as int);
}

/// A name that no scope has gets no distance.
pub proof fn lemma_global(state: State, id: u64, name: Seq<char>)
    requires
        forall|i: int| 0 <= i < state.scopes.len() ==> !(#[trigger] state.scopes[i]).contains_key(name),
    ensures
        resolve_local_spec(state, id, name) == state,
{
    lemma_innermost(state.scopes, name, state.scopes.len() as int);
}

/// A variable cannot be read in its own initializer: where a scope is
/// open that does not have the name yet, `var NAME = NAME;` is an error at
/// the read of the name, whatever the scopes around it hold.
pub proof fn lemma_own_initializer(state: State, name: TokenView, read: TokenView)
    requires
        state.scopes.len() > 0,
        !has_local(state.scopes, name.lexeme),
        read.lexeme == name.lexeme,
    ensures
        resolve_var_spec(state, name, Some(ExprView::Variable { name: read })).error == Some(
            ResolveErrorView {
                token: read,
                msg: "Can't read local variable in its own initializer."@,
            },
        ),
{
    reveal(resolve_var_spec);
    reveal(resolve_expr_spec);
}

/// A class cannot be its own superclass: a class statement whose
/// superclass has the class's name is an error of the resolver, whatever
/// the class holds. Unless the name was declared before in the same scope,
/// which is an error too, the error is found at the superclass.
pub proof fn lemma_own_superclass(
    state: State,
    name: TokenView,
    parent: TokenView,
    methods: Seq<FuncDeclarationView>,
)
    requires
        parent.lexeme == name.lexeme,
    ensures
        resolve_class_spec(state, name, Some(parent), methods).error is Some,
        !has_local(state.scopes, name.lexeme) ==> resolve_class_spec(
            state,
            name,
            Some(parent),
            methods,
        ).error == Some(
            ResolveErrorView { token: parent, msg: "A class can't inherit from itself."@ },
        ),
{
    reveal(resolve_class_spec);
}

} // verus!
