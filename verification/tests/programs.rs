use lox::interpreter::Interpreter;
use lox::run::{run, Error};

fn output_of(source: &str) -> Vec<String> {
    let mut interpreter = Interpreter::new();
    match run(source.to_string(), &mut interpreter, u64::MAX) {
        Ok(()) => interpreter.take_output(),
        Err(error) => panic!("{:?}", error),
    }
}

fn failure_of(source: &str) -> Error {
    let mut interpreter = Interpreter::new();
    match run(source.to_string(), &mut interpreter, u64::MAX) {
        Ok(()) => panic!("the program ran"),
        Err(error) => error,
    }
}

#[test]
fn arithmetic_follows_precedence() {
    assert_eq!(output_of("print 1 + 2 * 3;"), vec!["7"]);
}

#[test]
fn strings_are_joined() {
    assert_eq!(output_of("var a = \"hi\"; print a + \" \" + \"there\";"), vec!["hi there"]);
}

#[test]
fn recursion_computes_fibonacci() {
    assert_eq!(
        output_of("fun fib(n){ if (n < 2) return n; return fib(n-1) + fib(n-2); } print fib(10);"),
        vec!["55"]
    );
}

#[test]
fn initializer_and_method_see_this() {
    assert_eq!(
        output_of(
            "class Greeter { init(n){ this.n = n; } hi(){ return \"hello \" + this.n; } } print Greeter(\"world\").hi();"
        ),
        vec!["hello world"]
    );
}

#[test]
fn super_calls_the_inherited_method() {
    assert_eq!(
        output_of(
            "class A { f(){ return \"A\"; } } class B < A { f(){ return super.f() + \"B\"; } } print B().f();"
        ),
        vec!["AB"]
    );
}

#[test]
fn blocks_shadow_and_restore() {
    assert_eq!(
        output_of("var a = 1; { var a = 2; { var a = 3; print a; } print a; } print a;"),
        vec!["3", "2", "1"]
    );
}

#[test]
fn closure_sees_later_assignment() {
    assert_eq!(output_of("var a = 1; fun f(){ return a; } a = 2; print f();"), vec!["2"]);
}

#[test]
fn closure_sees_later_assignment_to_a_local() {
    assert_eq!(
        output_of("{ var a = 1; fun f(){ return a; } a = 2; print f(); }"),
        vec!["2"]
    );
}

#[test]
fn counter_keeps_its_own_state() {
    assert_eq!(
        output_of(
            "fun make(){ var n = 0; fun next(){ n = n + 1; return n; } return next; } var c = make(); var d = make(); print c(); print c(); print d();"
        ),
        vec!["1", "2", "1"]
    );
}

#[test]
fn fetched_method_keeps_its_instance() {
    assert_eq!(
        output_of(
            "class P { init(n){ this.n = n; } name(){ return this.n; } } var x = P(\"x\"); var y = P(\"y\"); var m = x.name; print m(); x.n = \"z\"; print m(); print y.name();"
        ),
        vec!["x", "z", "y"]
    );
}

#[test]
fn print_and_expression_statement_agree() {
    assert_eq!(
        output_of("var a = 1; a = a + 1; print a; var b = 1; print b = b + 1; print b;"),
        vec!["2", "2", "2"]
    );
}

#[test]
fn for_loop_counts() {
    assert_eq!(
        output_of("for (var i = 0; i < 3; i = i + 1) print i;"),
        vec!["0", "1", "2"]
    );
}

#[test]
fn while_loop_counts() {
    assert_eq!(
        output_of("var i = 3; while (i > 0) { print i; i = i - 1; }"),
        vec!["3", "2", "1"]
    );
}

#[test]
fn logical_operators_return_operands() {
    assert_eq!(
        output_of("print nil or \"yes\"; print 1 and 2; print false and 1; print 1 or 2;"),
        vec!["yes", "2", "false", "1"]
    );
}

#[test]
fn equality_of_values() {
    assert_eq!(
        output_of("print 1 == 1; print 1 == \"1\"; print nil == nil; print \"a\" != \"b\"; print (0/0) == (0/0);"),
        vec!["true", "false", "true", "true", "false"]
    );
}

#[test]
fn truthiness() {
    assert_eq!(
        output_of("if (0) print \"zero\"; if (\"\") print \"empty\"; if (nil) print \"nil\"; else print \"not nil\"; print !false;"),
        vec!["zero", "empty", "not nil", "true"]
    );
}

#[test]
fn display_forms() {
    assert_eq!(
        output_of("class A {} fun f(){} print A; print A(); print f; print clock; print nil; print true; print 2.5; print -0.5; print 100; print 1/3;"),
        vec!["A", "A instance", "fun", "fun", "nil", "true", "2.5", "-0.5", "100", "0.3333333333333333"]
    );
}

#[test]
fn division_by_zero_is_infinite() {
    assert_eq!(output_of("print 1/0; print -1/0; print 0/0;"), vec!["inf", "-inf", "NaN"]);
}

#[test]
fn inherited_methods_and_fields() {
    assert_eq!(
        output_of(
            "class A { hi(){ return \"hi \" + this.who; } } class B < A { init(){ this.who = \"b\"; } } print B().hi();"
        ),
        vec!["hi b"]
    );
}

#[test]
fn initializer_returns_the_instance() {
    assert_eq!(
        output_of("class A { init(){ this.x = 1; return; } } var a = A(); print a.init().x;"),
        vec!["1"]
    );
}

#[test]
fn number_plus_string_concatenates() {
    assert_eq!(output_of("print 1 + \"a\"; print \"a\" + 1;"), vec!["1a", "a1"]);
}

#[test]
fn adding_nil_fails() {
    assert!(matches!(failure_of("1 + nil;"), Error::Runtime(_)));
}

#[test]
fn undefined_function_fails() {
    assert!(matches!(failure_of("foo();"), Error::Runtime(_)));
}

#[test]
fn own_initializer_is_refused_in_a_block() {
    assert!(matches!(failure_of("{ var x = x; }"), Error::Resolver(_)));
}

#[test]
fn own_initializer_of_a_global_fails_at_run_time() {
    assert!(matches!(failure_of("var x = x;"), Error::Runtime(_)));
}

#[test]
fn top_level_return_is_refused() {
    assert!(matches!(failure_of("return 1;"), Error::Resolver(_)));
}

#[test]
fn class_cannot_inherit_from_itself() {
    assert!(matches!(failure_of("class Cycle < Cycle {}"), Error::Resolver(_)));
}

#[test]
fn parse_errors_are_collected() {
    match failure_of("print 1 print 2; var = 3; print (4;") {
        Error::Parser(errors) => assert_eq!(errors.0.len(), 3),
        other => panic!("{:?}", other),
    }
}

#[test]
fn scanner_errors_are_collected() {
    match failure_of("print 1 # 2 @ 3;") {
        Error::Scanner(errors) => assert_eq!(errors.0.len(), 2),
        other => panic!("{:?}", other),
    }
}

#[test]
fn wrong_argument_count_fails() {
    match failure_of("fun f(a, b){} f(1);") {
        Error::Runtime(error) => {
            assert_eq!(error.message(), "[line 1] Error at ')': Expected 2 arguments but got 1.")
        }
        other => panic!("{:?}", other),
    }
}

#[test]
fn endless_loop_runs_out_of_budget() {
    let mut interpreter = Interpreter::new();
    let result = run("while (true) {}".to_string(), &mut interpreter, 1000);
    assert!(matches!(result, Err(Error::Runtime(_))));
}
