use tree_walk_rs::interpreter::environment::{Environment, Heap};
use tree_walk_rs::interpreter::operators::{
    apply_unary, check_arity, plan_binary, short_circuits, Arithmetic, BinaryPlan,
};
use tree_walk_rs::interpreter::{
    Host, Interpreter, LoxCallable, LoxClass, LoxInstance, LoxValue, RuntimeError,
};
use tree_walk_rs::number::Number;
use tree_walk_rs::token::{Token, TokenType};
use tree_walk_rs::{run, Outcome};

/// A host that computes with the machine's doubles and keeps what is
/// printed and reported.
struct Machine {
    printed: Vec<String>,
    reported: Vec<String>,
    time: Result<f64, String>,
}

impl Machine {
    fn new() -> Machine {
        Machine { printed: Vec::new(), reported: Vec::new(), time: Ok(1700000000.0) }
    }
}

fn number(value: f64) -> Number {
    Number::from_bits(value.to_bits())
}

impl Host for Machine {
    fn number(&mut self, digits: &str) -> Number {
        number(digits.parse::<f64>().unwrap())
    }

    fn compute(&mut self, operation: Arithmetic, left: Number, right: Number) -> Number {
        let a = f64::from_bits(left.bits);
        let b = f64::from_bits(right.bits);
        number(match operation {
            Arithmetic::Plus => a + b,
            Arithmetic::Minus => a - b,
            Arithmetic::Times => a * b,
            Arithmetic::Divide => a / b,
        })
    }

    fn show(&mut self, number: Number) -> String {
        format!("{}", f64::from_bits(number.bits))
    }

    fn clock(&mut self) -> Result<Number, String> {
        self.time.clone().map(number)
    }

    fn print(&mut self, line: &str) {
        self.printed.push(line.to_string());
    }

    fn report(&mut self, line: &str) {
        self.reported.push(line.to_string());
    }
}

/// Runs `source` in a new interpreter. Gives what was printed and what was
/// reported.
fn output(source: &str) -> (Vec<String>, Vec<String>) {
    let mut interpreter = Interpreter::new();
    let mut host = Machine::new();
    let report = run(&mut interpreter, &mut host, source.to_string(), 0);
    assert!(matches!(report.outcome, Outcome::Ran), "{:?}", report.outcome);
    assert_eq!(interpreter.environment, 0);
    (host.printed, host.reported)
}

fn printed(source: &str) -> Vec<String> {
    let (printed, reported) = output(source);
    assert!(reported.is_empty(), "{:?}", reported);
    printed
}

fn reported(source: &str) -> Vec<String> {
    output(source).1
}

fn token(typ: TokenType, lexeme: &str) -> Token {
    Token::new(0, typ, lexeme.to_string(), 1)
}

#[test]
fn closures_keep_their_own_state() {
    let source = "fun make(){ var i = 0; fun inc(){ i = i + 1; return i; } return inc; } \
                  var c1 = make(); var c2 = make(); print c1(); print c1(); print c2();";
    assert_eq!(printed(source), vec!["1", "2", "1"]);
}

#[test]
fn closures_over_one_scope_share_it() {
    let source = "var get; var set; { var v = 1; fun g() { return v; } fun s(x) { v = x; } \
                  get = g; set = s; } print get(); set(5); print get();";
    assert_eq!(printed(source), vec!["1", "5"]);
}

#[test]
fn super_calls_the_parent_with_the_derived_this() {
    let source = "class A { greet(){ return \"A\"; } } \
                  class B < A { greet(){ return super.greet() + \"B\"; } } print B().greet();";
    assert_eq!(printed(source), vec!["AB"]);
}

#[test]
fn super_keeps_this() {
    let source = "class A { name() { return this.n; } } \
                  class B < A { name() { return \"B:\" + super.name(); } } \
                  class C < B { } var c = C(); c.n = \"x\"; print c.name();";
    assert_eq!(printed(source), vec!["B:x"]);
}

#[test]
fn plus_and_comparison_refuse_operands_in_different_words() {
    assert_eq!(
        reported("1 + \"x\";"),
        vec!["[line 1] Error: Operands must be two numbers or two Strings"]
    );
    assert_eq!(reported("1 < \"x\";"), vec!["[line 1] Error: Operands must be numbers"]);
    assert_eq!(reported("\"a\" - \"b\";"), vec!["[line 1] Error: Operands must be numbers"]);
    assert_eq!(reported("nil * 2;"), vec!["[line 1] Error: Operands must be numbers"]);
    assert_eq!(reported("\n\ntrue / 2;"), vec!["[line 3] Error: Operands must be numbers"]);
    assert_eq!(reported("1 >= nil;"), vec!["[line 1] Error: Operands must be numbers"]);
    assert_eq!(
        reported("\"a\" + 1;"),
        vec!["[line 1] Error: Operands must be two numbers or two Strings"]
    );
}

#[test]
fn a_class_takes_as_many_arguments_as_its_initializer() {
    assert_eq!(
        reported("class A { init(a, b) {} } A(1);"),
        vec!["[line 1] Error: Expected 2 arguments but got 1."]
    );
    assert_eq!(
        reported("class B {} B(1, 2, 3);"),
        vec!["[line 1] Error: Expected 0 arguments but got 3."]
    );
    assert_eq!(
        reported("class A { init(a) {} } class C < A {} C();"),
        vec!["[line 1] Error: Expected 1 arguments but got 0."]
    );
    assert_eq!(printed("class A { init(a, b) { this.s = a + b; } } print A(1, 2).s;"), vec!["3"]);
}

#[test]
fn a_function_takes_as_many_arguments_as_it_has_parameters() {
    assert_eq!(
        reported("fun f(a) {} f();"),
        vec!["[line 1] Error: Expected 1 arguments but got 0."]
    );
    assert_eq!(
        reported("fun f() {}\nf(1,\n 2);"),
        vec!["[line 3] Error: Expected 0 arguments but got 2."]
    );
    assert_eq!(reported("clock(1);"), vec!["[line 1] Error: Expected 0 arguments but got 1."]);
}

#[test]
fn only_functions_and_classes_can_be_called() {
    assert_eq!(reported("\"f\"();"), vec!["[line 1] Error: Can only call functions and classes."]);
    assert_eq!(reported("nil();"), vec!["[line 1] Error: Can only call functions and classes."]);
    assert_eq!(
        reported("class A {} A()();"),
        vec!["[line 1] Error: Can only call functions and classes."]
    );
}

#[test]
fn arithmetic_is_the_hosts() {
    assert_eq!(printed("print 1 + 2 * 3 - 4 / 8;"), vec!["6.5"]);
    assert_eq!(printed("print -(1 + 2);"), vec!["-3"]);
    assert_eq!(printed("print 1 / 0;"), vec!["inf"]);
    assert_eq!(printed("print 0.1 + 0.2;"), vec!["0.30000000000000004"]);
    assert_eq!(printed("print 10.50;"), vec!["10.5"]);
}

#[test]
fn strings_join() {
    assert_eq!(printed("print \"foo\" + \"bar\" + \"\";"), vec!["foobar"]);
}

#[test]
fn numbers_are_ordered_here() {
    assert_eq!(
        printed("print 1 < 2; print 2 < 1; print 1 <= 1; print 1 >= 2; print 3 > 2; print -1 < 0;"),
        vec!["true", "false", "true", "false", "true", "true"]
    );
    assert_eq!(
        printed("var nan = 0 / 0; print nan < 1; print nan >= nan; print nan == nan; print nan != nan;"),
        vec!["false", "false", "false", "true"]
    );
    assert_eq!(printed("print 0 == -0; print 0 < -0;"), vec!["true", "false"]);
}

#[test]
fn equality_takes_any_values() {
    assert_eq!(
        printed(
            "print nil == nil; print 1 == 1; print 1 == 2; print \"a\" == \"a\"; print \"a\" == \"b\"; \
             print 1 == \"1\"; print nil == false; print true == true; print true != false; \
             print 1 != \"1\";"
        ),
        vec!["true", "true", "false", "true", "false", "false", "false", "true", "true", "true"]
    );
}

#[test]
fn functions_classes_and_instances_are_equal_to_themselves() {
    let source = "fun f() {} fun g() {} class A { m() {} } var a = A(); var b = A(); var h = f; \
                  print f == f; print f == h; print f == g; print A == A; print a == a; \
                  print a == b; print a.m == a.m; print clock == clock; print f == A;";
    assert_eq!(
        printed(source),
        vec!["true", "true", "false", "true", "true", "false", "false", "true", "false"]
    );
}

#[test]
fn only_nil_and_false_count_as_false() {
    let source = "if (nil) print 1; else print 2; if (false) print 3; else print 4; \
                  if (0) print 5; if (\"\") print 6; if (true) print 7; if (clock) print 8; \
                  print !nil; print !0; print !\"\";";
    assert_eq!(printed(source), vec!["2", "4", "5", "6", "7", "8", "true", "false", "false"]);
    assert!(!LoxValue::Nil.is_truthy());
    assert!(!LoxValue::Boolean(false).is_truthy());
    assert!(LoxValue::Boolean(true).is_truthy());
    assert!(LoxValue::Number(number(0.0)).is_truthy());
    assert!(LoxValue::String(String::new()).is_truthy());
    assert!(LoxValue::Instance(3).is_truthy());
}

#[test]
fn logical_operators_stop_as_soon_as_they_are_decided() {
    let source = "fun t() { print \"t\"; return true; } fun f() { print \"f\"; return false; } \
                  print f() and t(); print t() or f(); print t() and f(); print f() or t(); \
                  print nil or \"x\"; print 1 and 2; print nil and 1;";
    assert_eq!(
        printed(source),
        vec!["f", "false", "t", "true", "t", "f", "false", "f", "t", "true", "x", "2", "Nil"]
    );
}

#[test]
fn values_are_shown() {
    let source = "fun f() {} class A {} print nil; print true; print false; print 12; \
                  print \"text\"; print f; print clock; print A; print A(); print A().m;";
    let (printed, reported) = output(source);
    assert_eq!(
        printed,
        vec!["Nil", "true", "false", "12", "text", "<fn f>", "<native fn>", "A", "A instance"]
    );
    assert_eq!(reported, vec!["[line 1] Error: Undefined property 'm'."]);
}

#[test]
fn blocks_have_scopes_of_their_own() {
    let source = "var a = \"global\"; { var a = \"outer\"; { var a = \"inner\"; print a; } print a; } print a;";
    assert_eq!(printed(source), vec!["inner", "outer", "global"]);
}

#[test]
fn a_block_is_left_when_it_fails() {
    let source = "var a = 1; { var a = 2; { var a = 3; nil(); } } print a; { var b = 4; } print b;";
    let (printed, reported) = output(source);
    assert_eq!(printed, vec!["1"]);
    assert_eq!(
        reported,
        vec![
            "[line 1] Error: Can only call functions and classes.",
            "[line 1] Error: Undefined variable 'b'.",
        ]
    );
}

#[test]
fn a_function_is_left_when_it_returns() {
    let source = "var a = \"global\"; fun f() { var a = \"local\"; while (true) { { return a; } } } \
                  print f(); print a;";
    assert_eq!(printed(source), vec!["local", "global"]);
}

#[test]
fn an_error_stops_its_statement_only() {
    let source = "print 1; print 2 + nil; print 3; undefined; print 4;";
    let (printed, reported) = output(source);
    assert_eq!(printed, vec!["1", "3", "4"]);
    assert_eq!(
        reported,
        vec![
            "[line 1] Error: Operands must be two numbers or two Strings",
            "[line 1] Error: Undefined variable 'undefined'.",
        ]
    );
}

#[test]
fn variables() {
    assert_eq!(printed("var a; print a; a = 2; print a; var a = 3; print a;"), vec!["Nil", "2", "3"]);
    assert_eq!(printed("var a = 1; print a = 2; { a = 3; } print a;"), vec!["2", "3"]);
    assert_eq!(reported("a = 1;"), vec!["[line 1] Error: Undefined variable 'a'."]);
    assert_eq!(reported("{ b = 1; }"), vec!["[line 1] Error: Undefined variable 'b'."]);
    assert_eq!(reported("print\n c;"), vec!["[line 2] Error: Undefined variable 'c'."]);
}

#[test]
fn a_function_sees_what_is_defined_before_it_is_called() {
    let source = "fun f() { return later; } var later = \"now\"; print f();";
    assert_eq!(printed(source), vec!["now"]);
}

#[test]
fn a_closure_keeps_the_variable_it_resolved_to() {
    let source = "var a = \"global\"; { fun show() { print a; } show(); var a = \"block\"; show(); }";
    assert_eq!(printed(source), vec!["global", "global"]);
}

#[test]
fn loops() {
    assert_eq!(
        printed("var i = 0; while (i < 3) { print i; i = i + 1; }"),
        vec!["0", "1", "2"]
    );
    assert_eq!(
        printed("for (var i = 0; i < 3; i = i + 1) print i * 2;"),
        vec!["0", "2", "4"]
    );
    assert_eq!(
        printed("var a = 0; var b = 1; for (var i = 0; i < 10; i = i + 1) { var t = a + b; a = b; b = t; } print a;"),
        vec!["55"]
    );
}

#[test]
fn recursion() {
    let source = "fun fib(n) { if (n < 2) return n; return fib(n - 1) + fib(n - 2); } print fib(15);";
    assert_eq!(printed(source), vec!["610"]);
}

#[test]
fn a_function_without_return_gives_nil() {
    assert_eq!(printed("fun f() { 1; } print f(); fun g() { return; } print g();"), vec!["Nil", "Nil"]);
}

#[test]
fn fields_and_methods() {
    let source = "class P { init(x) { this.x = x; } get() { return this.x; } \
                  add(n) { this.x = this.x + n; return this; } } \
                  var p = P(1); print p.x; print p.get(); print p.add(2).add(3).get(); \
                  p.y = \"new\"; print p.y; var m = p.get; p.x = 10; print m();";
    assert_eq!(printed(source), vec!["1", "1", "6", "new", "10"]);
}

#[test]
fn fields_hide_methods() {
    let source = "class A { m() { return \"method\"; } } var a = A(); print a.m(); \
                  fun f() { return \"field\"; } a.m = f; print a.m();";
    assert_eq!(printed(source), vec!["method", "field"]);
}

#[test]
fn instances_do_not_share_fields() {
    let source = "class A {} var a = A(); var b = A(); a.v = 1; b.v = 2; print a.v; print b.v;";
    assert_eq!(printed(source), vec!["1", "2"]);
}

#[test]
fn an_initializer_gives_the_instance() {
    let source = "class A { init() { this.v = 1; return; } } var a = A(); print a.v; \
                  var b = a.init(); print b == a; print b.v;";
    assert_eq!(printed(source), vec!["1", "true", "1"]);
}

#[test]
fn methods_are_inherited_and_overridden() {
    let source = "class A { a() { return \"A.a\"; } b() { return \"A.b\"; } } \
                  class B < A { b() { return \"B.b\"; } } class C < B { } \
                  var c = C(); print c.a(); print c.b(); print B().a();";
    assert_eq!(printed(source), vec!["A.a", "B.b", "A.a"]);
}

#[test]
fn a_class_may_refer_to_itself() {
    let source = "class A { make() { return A(); } } print A().make();";
    assert_eq!(printed(source), vec!["A instance"]);
}

#[test]
fn a_superclass_must_be_a_class() {
    assert_eq!(
        reported("var x = 1; class A < x {}"),
        vec!["[line 1] Error: Superclass must be a class."]
    );
    assert_eq!(reported("class A < B {}"), vec!["[line 1] Error: Undefined variable 'B'."]);
}

#[test]
fn only_instances_have_properties() {
    assert_eq!(reported("var a = 1; a.x;"), vec!["[line 1] Error: Only instances have properties."]);
    assert_eq!(reported("var a = 1; a.x = 2;"), vec!["[line 1] Error: Only instances have fields."]);
    assert_eq!(
        reported("class A {} A.x;"),
        vec!["[line 1] Error: Only instances have properties."]
    );
    assert_eq!(
        reported("class A {} A().x;"),
        vec!["[line 1] Error: Undefined property 'x'."]
    );
    assert_eq!(
        reported("class A {} class B < A { m() { super.x; } } B().m();"),
        vec!["[line 1] Error: Undefined property 'x'."]
    );
}

#[test]
fn unary_minus_takes_a_number() {
    assert_eq!(reported("-\"a\";"), vec!["[line 1] Error: Operand must be number."]);
    assert_eq!(reported("-nil;"), vec!["[line 1] Error: Operand must be number."]);
}

#[test]
fn the_clock_is_the_hosts() {
    assert_eq!(printed("print clock();"), vec!["1700000000"]);
    let mut interpreter = Interpreter::new();
    let mut host = Machine::new();
    host.time = Err("no clock".to_string());
    run(&mut interpreter, &mut host, "print clock(); print 1;".to_string(), 0);
    assert_eq!(host.reported, vec!["[line 0] Error: Error while calling system time: no clock"]);
    assert_eq!(host.printed, vec!["1"]);
}

#[test]
fn a_statement_stops_at_the_step_limit() {
    let mut interpreter = Interpreter::new();
    interpreter.set_step_limit(1000);
    let mut host = Machine::new();
    run(&mut interpreter, &mut host, "var n = 0; while (true) n = n + 1; print n > 100;".to_string(), 0);
    assert_eq!(host.reported, vec!["[line 0] Error: Step limit reached."]);
    assert_eq!(host.printed, vec!["true"]);
    assert_eq!(interpreter.environment, 0);
    assert_eq!(interpreter.step_limit, 1000);
    let mut host = Machine::new();
    run(&mut interpreter, &mut host, "fun f() { return f(); } f(); print \"after\";".to_string(), 100);
    assert_eq!(host.reported, vec!["[line 0] Error: Step limit reached."]);
    assert_eq!(host.printed, vec!["after"]);
}

#[test]
fn one_interpreter_runs_text_after_text() {
    let mut interpreter = Interpreter::new();
    let mut host = Machine::new();
    let first = run(&mut interpreter, &mut host, "fun f() { var a = 1; return a; }".to_string(), 0);
    let second = run(
        &mut interpreter,
        &mut host,
        "var x = 5; { var y = 6; print f() + x + y; }".to_string(),
        first.next_id,
    );
    assert!(matches!(second.outcome, Outcome::Ran));
    assert!(second.next_id > first.next_id);
    run(&mut interpreter, &mut host, "print x;".to_string(), second.next_id);
    assert_eq!(host.printed, vec!["12", "5"]);
    assert!(host.reported.is_empty());
}

#[test]
fn a_text_with_errors_is_not_run() {
    let mut interpreter = Interpreter::new();
    let mut host = Machine::new();
    let report = run(&mut interpreter, &mut host, "print 1; @ print \"".to_string(), 0);
    match report.outcome {
        Outcome::ScanFailed(errors) => assert_eq!(errors.len(), 2),
        other => panic!("{:?}", other),
    }
    let report = run(&mut interpreter, &mut host, "print 1; print ;".to_string(), 0);
    match report.outcome {
        Outcome::ParseFailed(errors) => {
            assert_eq!(errors.len(), 1);
            assert_eq!(errors[0].to_string(), "[line 1] Error at ';': Expect expression, found SemiColon");
        }
        other => panic!("{:?}", other),
    }
    let report = run(&mut interpreter, &mut host, "print 1; return 2;".to_string(), 0);
    match report.outcome {
        Outcome::ResolveFailed(error) => {
            assert_eq!(error.to_string(), "[line 1] Error at 'return': Can't return from top level code");
        }
        other => panic!("{:?}", other),
    }
    assert!(host.printed.is_empty());
    assert!(host.reported.is_empty());
}

#[test]
fn the_globals_hold_the_clock() {
    let interpreter = Interpreter::new();
    assert_eq!(interpreter.heap.envs.len(), 1);
    assert_eq!(interpreter.environment, 0);
    assert_eq!(interpreter.step_limit, u64::MAX);
    let name = token(TokenType::Identifier, "clock");
    assert!(matches!(
        Environment::get(&interpreter.heap, 0, &name),
        Ok(LoxValue::Callable(LoxCallable::Clock))
    ));
}

#[test]
fn environments_are_chained() {
    let mut heap = Heap::new();
    let a = token(TokenType::Identifier, "a");
    let b = token(TokenType::Identifier, "b");
    let c = token(TokenType::Identifier, "c");
    heap.define(0, "a".to_string(), LoxValue::Boolean(true));
    let inner = Environment::with_enclosing(&mut heap, 0);
    assert_eq!(inner, 1);
    let innermost = Environment::with_enclosing(&mut heap, inner);
    assert_eq!(innermost, 2);
    assert_eq!(heap.envs[2].enclosing, Some(1));
    heap.define(inner, "b".to_string(), LoxValue::Nil);
    assert!(matches!(Environment::get(&heap, innermost, &a), Ok(LoxValue::Boolean(true))));
    assert!(matches!(Environment::get(&heap, innermost, &b), Ok(LoxValue::Nil)));
    assert!(matches!(Environment::get(&heap, 0, &b), Err(_)));
    match Environment::get(&heap, innermost, &c) {
        Err(error) => assert_eq!(error.message, "Undefined variable 'c'."),
        Ok(value) => panic!("{:?}", value),
    }
    assert_eq!(Environment::find_ancestor(&heap, innermost, 0), Some(2));
    assert_eq!(Environment::find_ancestor(&heap, innermost, 1), Some(1));
    assert_eq!(Environment::find_ancestor(&heap, innermost, 2), Some(0));
    assert_eq!(Environment::find_ancestor(&heap, innermost, 3), None);
    assert_eq!(Environment::find_ancestor(&heap, 7, 0), None);
    assert!(matches!(Environment::get_at(&heap, innermost, 2, "a"), Some(LoxValue::Boolean(true))));
    assert!(Environment::get_at(&heap, innermost, 1, "a").is_none());
    assert!(Environment::get_at(&heap, innermost, 5, "a").is_none());
    assert!(Environment::assign(&mut heap, innermost, &a, LoxValue::Boolean(false)).is_ok());
    assert!(matches!(Environment::get(&heap, 0, &a), Ok(LoxValue::Boolean(false))));
    assert!(heap.envs[2].values.entries.is_empty());
    assert!(Environment::assign(&mut heap, innermost, &c, LoxValue::Nil).is_err());
    assert!(Environment::assign_at(&mut heap, innermost, 0, &c, LoxValue::Nil));
    assert!(matches!(Environment::get_at(&heap, innermost, 0, "c"), Some(LoxValue::Nil)));
    assert!(!Environment::assign_at(&mut heap, innermost, 9, &c, LoxValue::Nil));
}

#[test]
fn methods_are_found_up_the_chain() {
    let mut interpreter = Interpreter::new();
    let mut host = Machine::new();
    run(
        &mut interpreter,
        &mut host,
        "class A { init(a, b) {} m() {} } class B < A { n(x) {} } class C {}".to_string(),
        0,
    );
    let heap = &interpreter.heap;
    assert_eq!(heap.classes.len(), 3);
    assert_eq!(heap.classes[1].super_class, Some(0));
    assert_eq!(heap.classes[1].to_string(), "B");
    assert_eq!(LoxClass::arity(heap, 0), 2);
    assert_eq!(LoxClass::arity(heap, 1), 2);
    assert_eq!(LoxClass::arity(heap, 2), 0);
    assert!(LoxClass::find_method(heap, 1, "m").is_some());
    assert!(LoxClass::find_method(heap, 1, "n").is_some());
    assert!(LoxClass::find_method(heap, 0, "n").is_none());
    assert!(LoxClass::find_method(heap, 2, "m").is_none());
    let init = LoxClass::find_method(heap, 1, "init").unwrap();
    assert!(init.is_initializer);
    assert_eq!(init.arity(), 2);
    assert_eq!(init.to_string(), "<fn init>");
    assert!(!LoxClass::find_method(heap, 1, "m").unwrap().is_initializer);
    assert_eq!(LoxCallable::Class(1).arity(heap), 2);
    assert_eq!(LoxCallable::Clock.arity(heap), 0);
}

#[test]
fn a_bound_method_has_this() {
    let mut interpreter = Interpreter::new();
    let mut host = Machine::new();
    run(&mut interpreter, &mut host, "class A { m() {} } var a = A();".to_string(), 0);
    let heap = &mut interpreter.heap;
    assert_eq!(heap.instances.len(), 1);
    let before = heap.envs.len();
    let method = heap.find_method(0, "m").unwrap();
    let bound = method.bind(heap, 0);
    assert_eq!(bound.closure, before);
    assert_eq!(heap.envs[before].enclosing, Some(method.closure));
    assert!(matches!(Environment::get_at(heap, before, 0, "this"), Some(LoxValue::Instance(0))));
    let name = token(TokenType::Identifier, "m");
    assert!(matches!(
        LoxInstance::get(heap, 0, &name),
        Ok(LoxValue::Callable(LoxCallable::LoxFunction(_)))
    ));
    heap.set_field(0, &name, LoxValue::Nil);
    assert!(matches!(LoxInstance::get(heap, 0, &name), Ok(LoxValue::Nil)));
    let missing = token(TokenType::Identifier, "q");
    match LoxInstance::get(heap, 0, &missing) {
        Err(error) => assert_eq!(error.message, "Undefined property 'q'."),
        Ok(value) => panic!("{:?}", value),
    }
}

#[test]
fn what_binary_operators_do() {
    let one = LoxValue::Number(number(1.0));
    let two = LoxValue::Number(number(2.0));
    let text = LoxValue::String("a".to_string());
    assert!(matches!(
        plan_binary(&token(TokenType::Plus, "+"), &one, &two),
        BinaryPlan::Compute(Arithmetic::Plus, a, b) if a == number(1.0) && b == number(2.0)
    ));
    assert!(matches!(
        plan_binary(&token(TokenType::Slash, "/"), &two, &one),
        BinaryPlan::Compute(Arithmetic::Divide, a, b) if a == number(2.0) && b == number(1.0)
    ));
    assert!(matches!(
        plan_binary(&token(TokenType::Star, "*"), &one, &two),
        BinaryPlan::Compute(Arithmetic::Times, _, _)
    ));
    assert!(matches!(
        plan_binary(&token(TokenType::Minus, "-"), &one, &two),
        BinaryPlan::Compute(Arithmetic::Minus, _, _)
    ));
    assert!(matches!(plan_binary(&token(TokenType::Less, "<"), &one, &two), BinaryPlan::Boolean(true)));
    assert!(matches!(plan_binary(&token(TokenType::Greater, ">"), &one, &two), BinaryPlan::Boolean(false)));
    assert!(matches!(
        plan_binary(&token(TokenType::Plus, "+"), &text, &text),
        BinaryPlan::Text(joined) if joined == "aa"
    ));
    assert!(matches!(
        plan_binary(&token(TokenType::Plus, "+"), &text, &one),
        BinaryPlan::Fail(message) if message == "Operands must be two numbers or two Strings"
    ));
    assert!(matches!(
        plan_binary(&token(TokenType::Less, "<"), &text, &one),
        BinaryPlan::Fail(message) if message == "Operands must be numbers"
    ));
    assert!(matches!(
        plan_binary(&token(TokenType::EqualEqual, "=="), &text, &one),
        BinaryPlan::Boolean(false)
    ));
    assert!(matches!(
        plan_binary(&token(TokenType::BangEqual, "!="), &text, &one),
        BinaryPlan::Boolean(true)
    ));
    assert!(matches!(
        plan_binary(&token(TokenType::Comma, ","), &one, &one),
        BinaryPlan::Fail(message) if message == "Unknown binary operator."
    ));
}

#[test]
fn what_unary_and_logical_operators_do() {
    let minus = token(TokenType::Minus, "-");
    let bang = token(TokenType::Bang, "!");
    assert!(matches!(
        apply_unary(&minus, &LoxValue::Number(number(2.0))),
        Ok(LoxValue::Number(n)) if n == number(-2.0)
    ));
    assert!(matches!(apply_unary(&bang, &LoxValue::Nil), Ok(LoxValue::Boolean(true))));
    assert!(matches!(apply_unary(&bang, &LoxValue::Instance(0)), Ok(LoxValue::Boolean(false))));
    assert!(apply_unary(&token(TokenType::Plus, "+"), &LoxValue::Nil).is_err());
    let or = token(TokenType::Or, "or");
    let and = token(TokenType::And, "and");
    assert!(matches!(short_circuits(&or, &LoxValue::Boolean(true)), Ok(true)));
    assert!(matches!(short_circuits(&or, &LoxValue::Nil), Ok(false)));
    assert!(matches!(short_circuits(&and, &LoxValue::Boolean(true)), Ok(false)));
    assert!(matches!(short_circuits(&and, &LoxValue::Nil), Ok(true)));
    assert!(short_circuits(&minus, &LoxValue::Nil).is_err());
}

#[test]
fn arity_is_checked_with_a_message() {
    let paren = Token::new(0, TokenType::RightParen, ")".to_string(), 7);
    assert!(check_arity(&paren, 2, 2).is_ok());
    let error = check_arity(&paren, 2, 10).unwrap_err();
    assert_eq!(error.message, "Expected 2 arguments but got 10.");
    assert_eq!(error.token, paren);
    assert_eq!(error.to_string(), "[line 7] Error: Expected 2 arguments but got 10.");
    let error = RuntimeError::new(paren, "m".to_string());
    assert_eq!(error.to_string(), "[line 7] Error: m");
}

#[test]
fn what_needs_no_evaluation_is_settled() {
    let mut interpreter = Interpreter::new();
    let mut host = Machine::new();
    interpreter.steps_left = 3;
    let nil = tree_walk_rs::ast::Expr::Literal { value: tree_walk_rs::ast::LiteralValue::Nil };
    assert!(matches!(interpreter.evaluate(&mut host, &nil), Ok(LoxValue::Nil)));
    assert_eq!(interpreter.steps_left, 2);
    let text = tree_walk_rs::ast::Expr::Literal {
        value: tree_walk_rs::ast::LiteralValue::Text("t".to_string()),
    };
    assert!(matches!(interpreter.evaluate(&mut host, &text), Ok(LoxValue::String(t)) if t == "t"));
    let clock = tree_walk_rs::ast::Expr::Variable { name: token(TokenType::Identifier, "clock") };
    assert!(matches!(
        interpreter.evaluate(&mut host, &clock),
        Ok(LoxValue::Callable(LoxCallable::Clock))
    ));
    assert_eq!(interpreter.steps_left, 0);
    match interpreter.evaluate(&mut host, &nil) {
        Err(error) => assert_eq!(error.message, "Step limit reached."),
        Ok(value) => panic!("{:?}", value),
    }
    assert_eq!(interpreter.steps_left, 0);
}

#[test]
fn references_that_were_not_resolved_are_errors() {
    let mut interpreter = Interpreter::new();
    let mut host = Machine::new();
    let this = tree_walk_rs::ast::Expr::This { keyword: token(TokenType::This, "this") };
    match interpreter.evaluate(&mut host, &this) {
        Err(error) => assert_eq!(error.message, "Undefined variable 'this'."),
        Ok(value) => panic!("{:?}", value),
    }
    let parent = tree_walk_rs::ast::Expr::Super {
        keyword: token(TokenType::Super, "super"),
        method: token(TokenType::Identifier, "m"),
    };
    match interpreter.evaluate(&mut host, &parent) {
        Err(error) => assert_eq!(error.message, "Undefined variable 'super'."),
        Ok(value) => panic!("{:?}", value),
    }
    interpreter.resolve(&parent, 0);
    assert_eq!(interpreter.get_distance(&parent), Some(0));
    assert!(interpreter.evaluate(&mut host, &parent).is_err());
    interpreter.resolve(&this, 4);
    match interpreter.evaluate(&mut host, &this) {
        Err(error) => assert_eq!(error.message, "Undefined variable 'this'."),
        Ok(value) => panic!("{:?}", value),
    }
    assert!(interpreter.check());
}

#[test]
fn a_heap_out_of_order_is_found_out() {
    let mut interpreter = Interpreter::new();
    assert!(interpreter.check());
    let mut host = Machine::new();
    run(
        &mut interpreter,
        &mut host,
        "class A { m() {} } class B < A {} var b = B(); b.f = b.m; fun g() {} { var x = g; }".to_string(),
        0,
    );
    assert!(interpreter.check());
    assert!(interpreter.heap.holds(&LoxValue::Instance(0)));
    assert!(!interpreter.heap.holds(&LoxValue::Instance(1)));
    assert!(!interpreter.heap.holds(&LoxValue::Callable(LoxCallable::Class(2))));
    assert!(interpreter.heap.holds(&LoxValue::Nil));
    interpreter.environment = interpreter.heap.envs.len();
    assert!(!interpreter.check());
    interpreter.environment = 0;
    interpreter.heap.envs[0].enclosing = Some(0);
    assert!(!interpreter.check());
    interpreter.heap.envs[0].enclosing = None;
    assert!(interpreter.check());
    interpreter.heap.instances[0].class = 9;
    assert!(!interpreter.check());
    interpreter.heap.instances[0].class = 1;
    interpreter.heap.classes[0].super_class = Some(1);
    assert!(!interpreter.check());
    interpreter.heap.classes[0].super_class = None;
    interpreter.heap.envs[0].values.insert("bad".to_string(), LoxValue::Instance(5));
    assert!(!interpreter.check());
    assert!(!Heap { envs: Vec::new(), classes: Vec::new(), instances: Vec::new() }.check());
}

#[test]
fn values_are_shown_by_the_interpreter() {
    let mut interpreter = Interpreter::new();
    let mut host = Machine::new();
    run(&mut interpreter, &mut host, "class Pair {} var p = Pair();".to_string(), 0);
    assert_eq!(interpreter.display(&mut host, &LoxValue::Nil), "Nil");
    assert_eq!(interpreter.display(&mut host, &LoxValue::Boolean(false)), "false");
    assert_eq!(interpreter.display(&mut host, &LoxValue::Number(number(2.5))), "2.5");
    assert_eq!(interpreter.display(&mut host, &LoxValue::String("s".to_string())), "s");
    assert_eq!(interpreter.display(&mut host, &LoxValue::Callable(LoxCallable::Clock)), "<native fn>");
    assert_eq!(interpreter.display(&mut host, &LoxValue::Callable(LoxCallable::Class(0))), "Pair");
    assert_eq!(interpreter.display(&mut host, &LoxValue::Instance(0)), "Pair instance");
    assert_eq!(interpreter.display(&mut host, &LoxValue::Instance(7)), "");
}

#[test]
fn values_are_compared() {
    let a = LoxValue::String("a".to_string());
    assert!(a.equals(&a.clone()));
    assert!(!a.equals(&LoxValue::String("b".to_string())));
    assert!(!a.equals(&LoxValue::Nil));
    assert!(LoxValue::Nil.equals(&LoxValue::Nil));
    assert!(LoxValue::Number(number(0.0)).equals(&LoxValue::Number(number(-0.0))));
    assert!(!LoxValue::Number(number(f64::NAN)).equals(&LoxValue::Number(number(f64::NAN))));
    assert!(LoxValue::Instance(1).equals(&LoxValue::Instance(1)));
    assert!(!LoxValue::Instance(1).equals(&LoxValue::Instance(2)));
    assert!(LoxCallable::Class(1).same(&LoxCallable::Class(1)));
    assert!(!LoxCallable::Class(1).same(&LoxCallable::Clock));
}

#[test]
fn the_clock_gives_the_time_or_the_reason() {
    assert!(matches!(
        LoxCallable::clock_value(Ok(number(12.0))),
        Ok(LoxValue::Number(n)) if n == number(12.0)
    ));
    let error = LoxCallable::clock_value(Err("stopped".to_string())).unwrap_err();
    assert_eq!(error.message, "Error while calling system time: stopped");
    assert_eq!(error.token, Token::new(0, TokenType::Fun, "clock".to_string(), 0));
}
