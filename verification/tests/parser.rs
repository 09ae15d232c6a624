use tree_walk_rs::ast::{Expr, LiteralValue, Stmt};
use tree_walk_rs::parser::{ParseError, ParseResults, Parser};
use tree_walk_rs::scanner::Scanner;
use tree_walk_rs::token::{Token, TokenType};

fn parse(source: &str) -> ParseResults {
    let scanned = Scanner::new(source.to_string()).scan_tokens();
    assert!(scanned.errors.is_empty());
    Parser::new(scanned.tokens).parse()
}

fn expression(source: &str) -> String {
    let scanned = Scanner::new(source.to_string()).scan_tokens();
    let mut parser = Parser::new(scanned.tokens);
    match parser.expression() {
        Ok(expr) => expr.print(),
        Err(error) => error.to_string(),
    }
}

fn messages(results: &ParseResults) -> Vec<String> {
    results.errors.iter().map(|e| e.to_string()).collect()
}

#[test]
fn factors_bind_tighter_than_terms() {
    assert_eq!(expression("1 + 2 * 3"), "(+ 1 (* 2 3))");
    assert_eq!(expression("1 * 2 + 3"), "(+ (* 1 2) 3)");
    assert_eq!(expression("1 - 2 / 3 - 4"), "(- (- 1 (/ 2 3)) 4)");
}

#[test]
fn binary_operators_go_from_left_to_right() {
    assert_eq!(expression("1 - 2 - 3"), "(- (- 1 2) 3)");
    assert_eq!(expression("8 / 4 / 2"), "(/ (/ 8 4) 2)");
    assert_eq!(expression("a == b != c"), "(!= (== Variable: a Variable: b) Variable: c)");
}

#[test]
fn the_whole_ladder_of_precedence() {
    assert_eq!(
        expression("a = b or c and d == e < f + g * -h"),
        "(assign (or Variable: b (and Variable: c (== Variable: d (< Variable: e (+ Variable: f (* Variable: g (- Variable: h))))))))"
    );
}

#[test]
fn comparison_is_below_equality() {
    assert_eq!(expression("1 < 2 == 3 >= 4"), "(== (< 1 2) (>= 3 4))");
    assert_eq!(expression("1 <= 2"), "(<= 1 2)");
    assert_eq!(expression("1 > 2"), "(> 1 2)");
}

#[test]
fn unary_operators_nest() {
    assert_eq!(expression("!!true"), "(! (! true))");
    assert_eq!(expression("-x.y"), "(- (Get y Variable: x))");
    assert_eq!(expression("- - 1"), "(- (- 1))");
}

#[test]
fn grouping_overrides_precedence() {
    assert_eq!(expression("(1 + 2) * 3"), "(* (group (+ 1 2)) 3)");
}

#[test]
fn literals() {
    assert_eq!(expression("nil"), "Nil");
    assert_eq!(expression("true"), "true");
    assert_eq!(expression("false"), "false");
    assert_eq!(expression("12.50"), "12.50");
    assert_eq!(expression("\"a b\""), "a b");
    assert_eq!(expression("this"), "This");
    assert_eq!(expression("super.m"), "super.m");
}

#[test]
fn assignment_goes_from_right_to_left() {
    assert_eq!(expression("a = b = 3"), "(assign (assign 3))");
    let results = parse("a = b = 3;");
    match &results.statements[0] {
        Stmt::Expression(Expr::Assign { name, value }) => {
            assert_eq!(name.lexeme, "a");
            match &**value {
                Expr::Assign { name, .. } => assert_eq!(name.lexeme, "b"),
                other => panic!("{:?}", other),
            }
        }
        other => panic!("{:?}", other),
    }
}

#[test]
fn assignment_to_a_property_sets_it() {
    assert_eq!(expression("a.b.c = 1"), "(Set c (Get b Variable: a) 1)");
}

#[test]
fn only_variables_and_properties_can_be_assigned() {
    let results = parse("1 = 2; a + b = c; (a) = 3; print 4;");
    assert_eq!(
        messages(&results),
        vec![
            "[line 1] Error at '=': Invalid assignment target.",
            "[line 1] Error at '=': Invalid assignment target.",
            "[line 1] Error at '=': Invalid assignment target.",
        ]
    );
    assert_eq!(results.statements.len(), 1);
    assert!(matches!(results.statements[0], Stmt::Print(_)));
}

#[test]
fn calls_and_properties_chain() {
    assert_eq!(
        expression("a(b)(c).d"),
        "(Get d (function (function Variable: a Variable: b) Variable: c))"
    );
    assert_eq!(expression("f()"), "(function Variable: f)");
    assert_eq!(expression("f(1, 2, 3)"), "(function Variable: f 1 2 3)");
    assert_eq!(expression("a.b(1).c()"), "(function (Get c (function (Get b Variable: a) 1)))");
}

#[test]
fn a_call_takes_up_to_255_arguments() {
    let arguments = vec!["1"; 255].join(", ");
    let results = parse(format!("f({arguments});").as_str());
    assert!(results.errors.is_empty());
    match &results.statements[0] {
        Stmt::Expression(Expr::Call { arguments, paren, .. }) => {
            assert_eq!(arguments.len(), 255);
            assert_eq!(paren.typ, TokenType::RightParen);
        }
        other => panic!("{:?}", other),
    }
}

#[test]
fn more_than_255_arguments_are_an_error() {
    let arguments = vec!["1"; 256].join(", ");
    let results = parse(format!("f({arguments}); print 1;").as_str());
    assert_eq!(
        messages(&results),
        vec!["[line 1] Error at '1': Can't have more than 255 arguments."]
    );
    assert_eq!(results.statements.len(), 1);
}

#[test]
fn a_token_that_starts_no_expression() {
    assert_eq!(expression(")"), "[line 1] Error at ')': Expect expression, found RightParen");
    assert_eq!(expression("1 +"), "[line 1] Error at end: Expect expression, found Eof");
    assert_eq!(expression("("), "[line 1] Error at end: Expect expression, found Eof");
    assert_eq!(expression("(1"), "[line 1] Error at end: Expect ')' after expression.");
    assert_eq!(expression("f(1"), "[line 1] Error at end: Expect ')' after arguments.");
    assert_eq!(expression("a."), "[line 1] Error at end: Expect property name after '.'.");
    assert_eq!(expression("super"), "[line 1] Error at end: Expect '.' after 'super'.");
    assert_eq!(expression("super.1"), "[line 1] Error at '1': Expect superclass method name.");
}

#[test]
fn parsing_goes_on_after_an_error() {
    let results = parse("var = 1;\nprint 2;\nvar b 3;\nprint 4;\nprint (;\n");
    assert_eq!(
        messages(&results),
        vec![
            "[line 1] Error at '=': Expect variable name",
            "[line 3] Error at '3': Expect ';' after variable declaration.",
            "[line 5] Error at ';': Expect expression, found SemiColon",
        ]
    );
    assert_eq!(results.statements.len(), 2);
}

#[test]
fn after_an_error_tokens_are_dropped_up_to_a_keyword() {
    let results = parse("1 2 3 print 4; 5 + ; 6;");
    assert_eq!(results.errors.len(), 2);
    assert_eq!(results.statements.len(), 2);
    assert!(matches!(results.statements[0], Stmt::Print(_)));
    assert!(matches!(results.statements[1], Stmt::Expression(_)));
}

#[test]
fn errors_inside_blocks_are_kept() {
    let results = parse("{ var 1; print 2; } print 3;");
    assert_eq!(messages(&results), vec!["[line 1] Error at '1': Expect variable name"]);
    assert_eq!(results.statements.len(), 2);
    match &results.statements[0] {
        Stmt::Block { statements } => assert_eq!(statements.len(), 1),
        other => panic!("{:?}", other),
    }
}

#[test]
fn statements_of_every_kind() {
    let results = parse(
        "var a; var b = 1; print b; { a; } if (a) b; else a; if (a) b; while (a) b; \
         fun f(x, y) { return x; } fun g() { return; } class A {} class B < A { m() {} init(a) {} }",
    );
    assert!(results.errors.is_empty(), "{:?}", messages(&results));
    let s = &results.statements;
    assert_eq!(s.len(), 11);
    assert!(matches!(&s[0], Stmt::Var { name, initializer: None } if name.lexeme == "a"));
    assert!(matches!(&s[1], Stmt::Var { initializer: Some(_), .. }));
    assert!(matches!(&s[2], Stmt::Print(Expr::Variable { .. })));
    assert!(matches!(&s[3], Stmt::Block { statements } if statements.len() == 1));
    assert!(matches!(&s[4], Stmt::If { else_branch: Some(_), .. }));
    assert!(matches!(&s[5], Stmt::If { else_branch: None, .. }));
    assert!(matches!(&s[6], Stmt::While { .. }));
    match &s[7] {
        Stmt::Function(declaration) => {
            assert_eq!(declaration.name.lexeme, "f");
            assert_eq!(declaration.params.len(), 2);
            assert_eq!(declaration.params[1].lexeme, "y");
            assert!(matches!(
                &declaration.body[0],
                Stmt::Return { keyword, value_expr: Some(_) } if keyword.typ == TokenType::Return
            ));
        }
        other => panic!("{:?}", other),
    }
    match &s[8] {
        Stmt::Function(declaration) => {
            assert!(declaration.params.is_empty());
            assert!(matches!(&declaration.body[0], Stmt::Return { value_expr: None, .. }));
        }
        other => panic!("{:?}", other),
    }
    assert!(matches!(&s[9], Stmt::Class { name, super_class: None, methods }
        if name.lexeme == "A" && methods.is_empty()));
    match &s[10] {
        Stmt::Class { name, super_class: Some(parent), methods } => {
            assert_eq!(name.lexeme, "B");
            assert_eq!(parent.lexeme, "A");
            assert_eq!(methods.len(), 2);
            assert_eq!(methods[0].name.lexeme, "m");
            assert_eq!(methods[1].params.len(), 1);
        }
        other => panic!("{:?}", other),
    }
}

#[test]
fn a_for_statement_becomes_a_loop() {
    let results = parse("for (var i = 0; i < 3; i = i + 1) print i;");
    assert!(results.errors.is_empty());
    match &results.statements[0] {
        Stmt::Block { statements } => {
            assert_eq!(statements.len(), 2);
            assert!(matches!(&statements[0], Stmt::Var { name, .. } if name.lexeme == "i"));
            match &statements[1] {
                Stmt::While { condition, body } => {
                    assert_eq!(condition.print(), "(< Variable: i 3)");
                    match &**body {
                        Stmt::Block { statements } => {
                            assert_eq!(statements.len(), 2);
                            assert!(matches!(&statements[0], Stmt::Print(_)));
                            assert!(matches!(&statements[1], Stmt::Expression(Expr::Assign { .. })));
                        }
                        other => panic!("{:?}", other),
                    }
                }
                other => panic!("{:?}", other),
            }
        }
        other => panic!("{:?}", other),
    }
}

#[test]
fn a_for_statement_without_clauses_loops_forever() {
    let results = parse("for (;;) print 1;");
    assert!(results.errors.is_empty());
    match &results.statements[0] {
        Stmt::While { condition, body } => {
            assert!(matches!(condition, Expr::Literal { value: LiteralValue::Boolean(true) }));
            assert!(matches!(&**body, Stmt::Print(_)));
        }
        other => panic!("{:?}", other),
    }
    let results = parse("for (a = 1; ; ) {}");
    assert!(matches!(&results.statements[0], Stmt::Block { statements } if statements.len() == 2));
}

#[test]
fn what_statements_miss() {
    let cases = [
        ("print 1", "[line 1] Error at end: Expect ';' after value."),
        ("1", "[line 1] Error at end: Expect ';' after expression."),
        ("return 1", "[line 1] Error at end: Expect ';' after return value."),
        ("{ 1;", "[line 1] Error at end: Expect '}' after block."),
        ("if 1", "[line 1] Error at '1': Expect '(' after 'if'"),
        ("if (1", "[line 1] Error at end: Expect ')' after condition"),
        ("while 1", "[line 1] Error at '1': Expect '(' after while."),
        ("while (1", "[line 1] Error at end: Expect ')' after condition."),
        ("for 1", "[line 1] Error at '1': Expect '(' after for."),
        ("for (;1", "[line 1] Error at end: Expect ';' after loop condition"),
        ("for (;;1", "[line 1] Error at end: Expect ')' after for cluase."),
        ("fun 1", "[line 1] Error at '1': Expect function name."),
        ("fun f 1", "[line 1] Error at '1': Expect '(' after function name."),
        ("fun f(1", "[line 1] Error at '1': Expect parameter name."),
        ("fun f(a 1", "[line 1] Error at '1': Expect ')' after parameters"),
        ("fun f(a) 1", "[line 1] Error at '1': Expect '{' before function body."),
        ("class 1", "[line 1] Error at '1': Expect class name."),
        ("class A < 1", "[line 1] Error at '1': Expect superclass name."),
        ("class A 1", "[line 1] Error at '1': Expect '{' before class body."),
        ("class A { 1", "[line 1] Error at '1': Expect method name."),
        ("class A { m 1", "[line 1] Error at '1': Expect '(' after method name."),
        ("class A { m() 1", "[line 1] Error at '1': Expect '{' before method body."),
        ("class A { m() {}", "[line 1] Error at end: Expect '}' after class body."),
        ("var a = 1", "[line 1] Error at end: Expect ';' after variable declaration."),
    ];
    for (source, expected) in cases {
        let results = parse(source);
        assert_eq!(messages(&results), vec![expected.to_string()], "{source}");
        assert!(results.statements.is_empty(), "{source}");
    }
}

#[test]
fn the_parser_stops_at_the_end_of_the_input() {
    let scanned = Scanner::new("print 1; print 2;".to_string()).scan_tokens();
    let mut parser = Parser::new(scanned.tokens);
    let results = parser.parse();
    assert_eq!(results.statements.len(), 2);
    assert_eq!(parser.current, parser.tokens.len() - 1);
    assert!(parser.errors.is_empty());
    let again = parser.parse();
    assert!(again.statements.is_empty());
    assert!(again.errors.is_empty());
}

#[test]
fn levels_can_be_parsed_on_their_own() {
    let tokens = |source: &str| Scanner::new(source.to_string()).scan_tokens().tokens;
    let mut parser = Parser::new(tokens("1 + 2 == 3"));
    assert_eq!(parser.term().unwrap().print(), "(+ 1 2)");
    assert_eq!(parser.current, 3);
    let mut parser = Parser::new(tokens("1 + 2 == 3"));
    assert_eq!(parser.factor().unwrap().print(), "1");
    let mut parser = Parser::new(tokens("1 + 2 == 3"));
    assert_eq!(parser.comparison().unwrap().print(), "(+ 1 2)");
    let mut parser = Parser::new(tokens("1 + 2 == 3"));
    assert_eq!(parser.equality().unwrap().print(), "(== (+ 1 2) 3)");
    let mut parser = Parser::new(tokens("-a(1)"));
    assert_eq!(parser.unary().unwrap().print(), "(- (function Variable: a 1))");
    let mut parser = Parser::new(tokens("a(1).b"));
    assert_eq!(parser.call().unwrap().print(), "(Get b (function Variable: a 1))");
    let mut parser = Parser::new(tokens("a(1)"));
    assert_eq!(parser.primary().unwrap().print(), "Variable: a");
    assert_eq!(parser.current, 1);
}

#[test]
fn parse_errors_say_where() {
    let token = Token::new(0, TokenType::Identifier, "x".to_string(), 3);
    assert_eq!(
        ParseError::new(token, "Bad".to_string()).to_string(),
        "[line 3] Error at 'x': Bad"
    );
    let end = Token::new(1, TokenType::Eof, String::new(), 9);
    assert_eq!(ParseError::new(end, "Bad".to_string()).to_string(), "[line 9] Error at end: Bad");
}
