use tree_walk_rs::ast::{Expr, Stmt};
use tree_walk_rs::bindings::Bindings;
use tree_walk_rs::parser::Parser;
use tree_walk_rs::resolver::{ClassType, FunctionType, ResolveError, Resolver};
use tree_walk_rs::scanner::Scanner;
use tree_walk_rs::token::{Token, TokenType};

fn statements(source: &str) -> Vec<Stmt> {
    let scanned = Scanner::new(source.to_string()).scan_tokens();
    assert!(scanned.errors.is_empty());
    let parsed = Parser::new(scanned.tokens).parse();
    assert!(parsed.errors.is_empty());
    parsed.statements
}

fn resolve(source: &str) -> Result<Vec<(u64, usize)>, String> {
    let stmts = statements(source);
    let mut resolver = Resolver::new();
    let mut bindings = Bindings::new();
    match resolver.resolve_stmts(&mut bindings, &stmts) {
        Ok(()) => {
            assert!(resolver.scopes.is_empty());
            assert_eq!(resolver.current_function, FunctionType::Outside);
            assert_eq!(resolver.current_class, ClassType::Outside);
            let mut found: Vec<(u64, usize)> =
                bindings.map.iter().map(|(id, depth)| (*id, *depth)).collect();
            found.sort();
            Ok(found)
        }
        Err(error) => {
            assert!(resolver.scopes.is_empty());
            assert_eq!(resolver.current_function, FunctionType::Outside);
            assert_eq!(resolver.current_class, ClassType::Outside);
            Err(error.to_string())
        }
    }
}

/// The distances of the references in `source`, in the order of their tokens.
fn distances(source: &str) -> Vec<(String, usize)> {
    let scanned = Scanner::new(source.to_string()).scan_tokens();
    let lexemes: Vec<String> = scanned.tokens.iter().map(|t| t.lexeme.clone()).collect();
    let found = resolve(source).unwrap();
    found.into_iter().map(|(id, depth)| (lexemes[id as usize].clone(), depth)).collect()
}

#[test]
fn a_variable_cannot_be_read_in_its_own_initializer() {
    assert_eq!(
        resolve("var a = \"outer\"; { var a = a; }"),
        Err("[line 1] Error at 'a': Can't read local variable in its own initializer.".to_string())
    );
}

#[test]
fn a_global_may_be_declared_from_itself() {
    assert!(resolve("var a = 1; var a = a;").is_ok());
}

#[test]
fn a_class_cannot_inherit_from_itself() {
    assert_eq!(
        resolve("class Oops < Oops {}"),
        Err("[line 1] Error at 'Oops': A class can't inherit from itself.".to_string())
    );
    assert_eq!(
        resolve("{ class Oops < Oops { m() { return 1; } } }"),
        Err("[line 1] Error at 'Oops': A class can't inherit from itself.".to_string())
    );
}

#[test]
fn two_references_to_one_name_are_bound_apart() {
    assert_eq!(
        distances("{ var a = 1; print a; { print a; { var b; print a; print b; } } }"),
        vec![
            ("a".to_string(), 0),
            ("a".to_string(), 1),
            ("a".to_string(), 2),
            ("b".to_string(), 0),
        ]
    );
}

#[test]
fn both_branches_are_resolved() {
    assert_eq!(
        distances("{ var x = true; if (x) x; else x; }"),
        vec![("x".to_string(), 0), ("x".to_string(), 0), ("x".to_string(), 0)]
    );
}

#[test]
fn globals_get_no_distance() {
    assert_eq!(distances("var a = 1; print a; { print a; a = 2; }"), vec![]);
    assert_eq!(distances("print undefined;"), vec![]);
}

#[test]
fn parameters_and_closures() {
    assert_eq!(
        distances("fun f(a) { fun g(b) { return a + b; } return g; }"),
        vec![("a".to_string(), 1), ("b".to_string(), 0), ("g".to_string(), 0)]
    );
}

#[test]
fn assignments_are_bound_like_reads() {
    assert_eq!(
        distances("{ var a; { a = 1; { a = a; } } }"),
        vec![("a".to_string(), 1), ("a".to_string(), 2), ("a".to_string(), 2)]
    );
}

#[test]
fn this_and_super_have_scopes_of_their_own() {
    assert_eq!(
        distances("class A { m() { return this; } } class B < A { m() { return super.m; } }"),
        vec![("this".to_string(), 1), ("super".to_string(), 2)]
    );
    assert_eq!(
        distances("{ class A {} class B < A { m() { { this; super.m; } } } }"),
        vec![("A".to_string(), 0), ("this".to_string(), 2), ("super".to_string(), 3)]
    );
}

#[test]
fn a_name_cannot_be_declared_twice_in_one_scope() {
    assert_eq!(
        resolve("{ var a = 1; var a = 2; }"),
        Err("[line 1] Error at 'a': Already a variable with the same name in this scope".to_string())
    );
    assert_eq!(
        resolve("fun f(a, a) {}"),
        Err("[line 1] Error at 'a': Already a variable with the same name in this scope".to_string())
    );
    assert_eq!(
        resolve("fun f(a) { var a; }"),
        Err("[line 1] Error at 'a': Already a variable with the same name in this scope".to_string())
    );
    assert!(resolve("var a = 1; var a = 2;").is_ok());
    assert!(resolve("{ var a; { var a; } }").is_ok());
}

#[test]
fn return_needs_a_function() {
    assert_eq!(
        resolve("return 1;"),
        Err("[line 1] Error at 'return': Can't return from top level code".to_string())
    );
    assert_eq!(
        resolve("{\n return;\n}"),
        Err("[line 2] Error at 'return': Can't return from top level code".to_string())
    );
    assert!(resolve("fun f() { return 1; }").is_ok());
    assert!(resolve("class A { m() { return 1; } }").is_ok());
}

#[test]
fn an_initializer_returns_no_value() {
    assert_eq!(
        resolve("class A { init() { return 1; } }"),
        Err("[line 1] Error at 'return': Can't return a value fron an initializer.".to_string())
    );
    assert!(resolve("class A { init() { return; } }").is_ok());
    assert!(resolve("class A { init() { fun f() { return 1; } } }").is_ok());
}

#[test]
fn this_needs_a_class() {
    assert_eq!(
        resolve("print this;"),
        Err("[line 1] Error at 'this': Can't use 'this' outside of a class.".to_string())
    );
    assert_eq!(
        resolve("fun f() { this; }"),
        Err("[line 1] Error at 'this': Can't use 'this' outside of a class.".to_string())
    );
    assert!(resolve("class A { m() { fun f() { this; } } }").is_ok());
}

#[test]
fn super_needs_a_superclass() {
    assert_eq!(
        resolve("super.m;"),
        Err("[line 1] Error at 'super': Can't use 'super' outside of a class".to_string())
    );
    assert_eq!(
        resolve("class A { m() { super.m; } }"),
        Err("[line 1] Error at 'super': Can't use 'super' in a class with no superclass".to_string())
    );
    assert!(resolve("class A {} class B < A { m() { super.m; } }").is_ok());
}

#[test]
fn the_resolver_stops_at_the_first_error() {
    assert_eq!(
        resolve("{ var a = a; } return 1; print this;"),
        Err("[line 1] Error at 'a': Can't read local variable in its own initializer.".to_string())
    );
}

#[test]
fn what_was_found_before_an_error_stays() {
    let stmts = statements("{ var a; a; { return; } }");
    let mut resolver = Resolver::new();
    let mut bindings = Bindings::new();
    assert!(resolver.resolve_stmts(&mut bindings, &stmts).is_err());
    assert_eq!(bindings.map.len(), 1);
    assert!(resolver.scopes.is_empty());
}

#[test]
fn bindings_are_kept_by_identity() {
    let mut bindings = Bindings::new();
    let first = Expr::Variable { name: Token::new(1, TokenType::Identifier, "a".to_string(), 1) };
    let second = Expr::Variable { name: Token::new(2, TokenType::Identifier, "a".to_string(), 1) };
    let other = Expr::This { keyword: Token::new(3, TokenType::This, "this".to_string(), 1) };
    let literal = Expr::Literal { value: tree_walk_rs::ast::LiteralValue::Nil };
    bindings.resolve(&first, 0);
    bindings.resolve(&second, 4);
    bindings.resolve(&literal, 9);
    assert_eq!(bindings.get_distance(&first), Some(0));
    assert_eq!(bindings.get_distance(&second), Some(4));
    assert_eq!(bindings.get_distance(&other), None);
    assert_eq!(bindings.get_distance(&literal), None);
    bindings.resolve(&first, 2);
    assert_eq!(bindings.get_distance(&first), Some(2));
    assert_eq!(bindings.get_distance(&second), Some(4));
    assert_eq!(first.id(), Some(1));
    assert_eq!(literal.id(), None);
}

#[test]
fn resolve_errors_say_where() {
    let token = Token::new(0, TokenType::Identifier, "x".to_string(), 3);
    let error = ResolveError::new(token, "Bad".to_string());
    assert_eq!(error.to_string(), "[line 3] Error at 'x': Bad");
    assert_eq!(error.msg, "Bad");
}
