use lox::environment::Environment;
use lox::error::{Failure, RuntimeError};
use lox::instance::Instance;
use lox::interpreter::Interpreter;
use lox::native_functions::{Clock, ParseInt, ReadLines};
use lox::number::Number;
use lox::run::{run, run_tokens, Error};
use lox::scanner::Scanner;
use lox::token::{Token, TokenType};
use lox::value::{Callable, Native, Value};
use lox::visitor::{Binary, Grouping, Literal, Node, Operators, Unary};

fn number(x: f64) -> Value {
    Value::Number(Number::from_bits(x.to_bits()))
}

fn token(ty: TokenType, lexeme: &str) -> Token {
    Token { ty, lexeme: lexeme.to_string(), literal: None, line: 7 }
}

fn text(value: &Value) -> String {
    value.display()
}

fn runtime_failure(source: &str) -> (Failure, String, usize) {
    let mut interpreter = Interpreter::new();
    match run(source.to_string(), &mut interpreter, u64::MAX) {
        Err(Error::Runtime(RuntimeError::Thrown { failure, subject, line })) => {
            (failure, subject, line)
        }
        other => panic!("{:?}", other),
    }
}

#[test]
fn truthiness_of_values() {
    assert!(Value::Nil.is_falsy());
    assert!(Value::Bool(false).is_falsy());
    assert!(Value::Bool(true).is_truthy());
    assert!(number(0.0).is_truthy());
    assert!(Value::String(String::new()).is_truthy());
    assert!(Value::Instance(0).is_truthy());
    assert!(Value::Class(0).is_truthy());
    assert!(Value::Callable(Callable::Native(Native::Clock)).is_truthy());
    assert!(!Value::Nil.is_truthy());
}

#[test]
fn equality_of_values_by_kind() {
    assert!(Value::Nil.equals(&Value::Nil));
    assert!(number(0.0).equals(&number(-0.0)));
    assert!(!number(f64::NAN).equals(&number(f64::NAN)));
    assert!(!number(1.0).equals(&Value::String("1".to_string())));
    assert!(Value::String("a".to_string()).equals(&Value::String("a".to_string())));
    assert!(Value::Instance(1).equals(&Value::Instance(1)));
    assert!(!Value::Instance(1).equals(&Value::Instance(2)));
    assert!(!Value::Instance(1).equals(&Value::Class(1)));
    assert!(Value::Callable(Callable::Function(3)).equals(&Value::Callable(Callable::Function(3))));
    assert!(!Value::Bool(false).equals(&Value::Nil));
}

#[test]
fn conversions_of_values() {
    assert!(number(1.0).is_number());
    assert!(Value::String("a".to_string()).is_string());
    assert!(Value::Nil.is_nil());
    assert!(Value::Callable(Callable::Native(Native::Clock)).is_callable());
    assert_eq!(number(2.5).number().unwrap().to_bits(), 2.5f64.to_bits());
    assert!(Value::Nil.number().is_none());
    assert_eq!(Value::String("a".to_string()).string(), Some("a".to_string()));
    assert!(number(1.0).string().is_none());
    assert_eq!(Value::Bool(true).bool(), Some(true));
    assert!(Value::Nil.bool().is_none());
    assert!(Value::Nil.nil().is_some());
    assert!(Value::Bool(false).nil().is_none());
    assert!(matches!(Value::default(), Value::Nil));
}

#[test]
fn text_of_values() {
    assert_eq!(text(&Value::Nil), "nil");
    assert_eq!(text(&Value::Bool(false)), "false");
    assert_eq!(text(&number(-12.5)), "-12.5");
    assert_eq!(text(&Value::String("a b".to_string())), "a b");
    assert_eq!(text(&Value::Callable(Callable::Function(0))), "fun");
}

#[test]
fn environment_scopes() {
    let mut env = Environment::new();
    env.define("a", number(1.0));
    let globals = env.current();
    let outer = env.enclose(globals);
    assert_eq!(outer, globals);
    env.define("b", number(2.0));
    let inner = env.current();
    env.enclose(inner);
    env.define("a", number(3.0));
    assert_eq!(env.frame_count(), 3);

    assert!(env.get("a").unwrap().equals(&number(3.0)));
    assert!(env.get("b").unwrap().equals(&number(2.0)));
    assert!(env.get("c").is_err());
    assert!(env.get_at(0, "a").unwrap().equals(&number(3.0)));
    assert!(env.get_at(1, "a").unwrap().equals(&number(1.0)));
    assert!(env.get_at(2, "a").unwrap().equals(&number(1.0)));
    assert!(env.get_at(2, "b").is_err());
    assert!(env.get_at(3, "a").is_err());
    assert!(env.get_global("a").unwrap().equals(&number(1.0)));
    assert!(env.get_from(inner, "b").unwrap().equals(&number(2.0)));

    assert!(env.assign("b", number(4.0)).is_ok());
    assert!(env.get("b").unwrap().equals(&number(4.0)));
    assert!(env.assign("c", number(5.0)).is_err());
    assert!(env.assign_at(1, "a", number(6.0)).is_ok());
    assert!(env.get_global("a").unwrap().equals(&number(6.0)));
    assert!(env.get("a").unwrap().equals(&number(3.0)));
    assert!(env.assign_global("b", number(7.0)).is_err());

    env.declose(globals);
    assert_eq!(env.current(), globals);
    assert!(env.get("b").is_err());
    assert!(env.get("a").unwrap().equals(&number(6.0)));
}

#[test]
fn instance_fields() {
    let mut instance = Instance::new(3);
    assert_eq!(instance.class, 3);
    assert!(instance.get("x").is_none());
    instance.set("x", number(1.0));
    instance.set("y", Value::Nil);
    instance.set("x", number(2.0));
    assert!(instance.get("x").unwrap().equals(&number(2.0)));
    assert!(instance.get("y").unwrap().is_nil());
    assert_eq!(instance.fields.len(), 2);
}

#[test]
fn natives_are_globals() {
    let interpreter = Interpreter::new();
    let site = token(TokenType::Identifier, "clock");
    assert!(interpreter
        .lookup_variable(&site, None)
        .unwrap()
        .equals(&Clock::value()));
    assert_eq!(interpreter.arity(&Clock::value()), Some(0));
    assert_eq!(interpreter.arity(&ReadLines::value()), Some(0));
    assert_eq!(interpreter.arity(&ParseInt::value()), Some(1));
    assert_eq!(interpreter.arity(&Value::Nil), None);
    assert_eq!(Clock {}.arity(), 0);
    assert_eq!(ReadLines {}.arity(), 0);
    assert_eq!(ParseInt {}.arity(), 1);
}

#[test]
fn clock_tells_the_time_that_was_set() {
    let mut interpreter = Interpreter::new();
    interpreter.set_clock(Number::from_bits(1234.5f64.to_bits()));
    run("print clock(); print clock() - 1000;".to_string(), &mut interpreter, u64::MAX).unwrap();
    assert_eq!(interpreter.take_output(), vec!["1234.5", "234.5"]);
    let site = token(TokenType::RightParen, ")");
    assert!(Clock {}.call(&mut interpreter, &vec![Value::Nil], &site).is_err());
}

#[test]
fn read_lines_takes_the_input_in_order() {
    let mut interpreter = Interpreter::new();
    interpreter.push_input("first".to_string());
    interpreter.push_input(String::new());
    interpreter.push_input("third".to_string());
    run(
        "print readLines(); print readLines(); print readLines(); print readLines();".to_string(),
        &mut interpreter,
        u64::MAX,
    )
    .unwrap();
    assert_eq!(interpreter.take_output(), vec!["first", "nil", "third", "nil"]);
    assert!(interpreter.take_output().is_empty());
}

#[test]
fn parse_int_reads_numbers() {
    let mut interpreter = Interpreter::new();
    run("print parseInt(\"42\") + 1; print parseInt(\"2.5\") * 2;".to_string(), &mut interpreter, u64::MAX)
        .unwrap();
    assert_eq!(interpreter.take_output(), vec!["43", "5"]);
    assert_eq!(runtime_failure("parseInt(\"x\");").0, Failure::NativeArgument);
    assert_eq!(runtime_failure("parseInt(1);").0, Failure::NativeArgument);
    assert_eq!(
        runtime_failure("parseInt();").0,
        Failure::Arity { expected: 1, got: 0 }
    );
    let site = token(TokenType::RightParen, ")");
    let result = ParseInt {}
        .call(&mut interpreter, &vec![Value::String("8".to_string())], &site)
        .unwrap();
    assert!(result.equals(&number(8.0)));
    assert!(ReadLines {}.call(&mut interpreter, &vec![], &site).unwrap().is_nil());
}

#[test]
fn failures_of_operators() {
    assert_eq!(runtime_failure("1 - \"a\";"), (Failure::OperandNotNumber, "-".to_string(), 1));
    assert_eq!(runtime_failure("\n\"a\" * 2;"), (Failure::OperandNotNumber, "*".to_string(), 2));
    assert_eq!(runtime_failure("nil / 2;").0, Failure::OperandNotNumber);
    assert_eq!(runtime_failure("1 < \"a\";").0, Failure::OperandNotNumber);
    assert_eq!(runtime_failure("-\"a\";").0, Failure::OperandNotNumber);
    assert_eq!(runtime_failure("true + 1;").0, Failure::OperandsNotAddable);
    assert_eq!(runtime_failure("nil + nil;").0, Failure::OperandsNotAddable);
}

#[test]
fn failures_of_variables_and_properties() {
    assert_eq!(runtime_failure("print a;"), (Failure::UndefinedVariable, "a".to_string(), 1));
    assert_eq!(runtime_failure("a = 1;").0, Failure::UndefinedVariable);
    assert_eq!(
        runtime_failure("class A {} A().x;"),
        (Failure::UndefinedProperty, "x".to_string(), 1)
    );
    assert_eq!(runtime_failure("var a = 1; a.x;").0, Failure::NoProperties);
    assert_eq!(runtime_failure("var a = 1; a.x = 2;").0, Failure::NoFields);
    assert_eq!(
        runtime_failure("class A {} class B < A { f() { return super.g(); } } B().f();"),
        (Failure::UndefinedProperty, "g".to_string(), 1)
    );
}

#[test]
fn failures_of_calls() {
    assert_eq!(runtime_failure("\"a\"();").0, Failure::NotCallable);
    assert_eq!(runtime_failure("nil();").0, Failure::NotCallable);
    assert_eq!(
        runtime_failure("fun f(a) {} f();").0,
        Failure::Arity { expected: 1, got: 0 }
    );
    assert_eq!(
        runtime_failure("class A { init(a, b) {} } A(1);").0,
        Failure::Arity { expected: 2, got: 1 }
    );
    assert_eq!(
        runtime_failure("class A {} A(1);").0,
        Failure::Arity { expected: 0, got: 1 }
    );
    assert_eq!(
        runtime_failure("clock(1);").0,
        Failure::Arity { expected: 0, got: 1 }
    );
    assert_eq!(runtime_failure("var A = 1; class B < A {}").0, Failure::SuperclassNotClass);
}

#[test]
fn budget_bounds_calls_and_rounds() {
    let mut interpreter = Interpreter::new();
    let endless = "fun f() { return f(); } f();";
    match run(endless.to_string(), &mut interpreter, 50) {
        Err(Error::Runtime(RuntimeError::Thrown { failure, .. })) => {
            assert_eq!(failure, Failure::Exhausted)
        }
        other => panic!("{:?}", other),
    }
    let mut interpreter = Interpreter::new();
    let counted = "var i = 0; while (i < 10) i = i + 1; print i;";
    assert!(run(counted.to_string(), &mut interpreter, 9).is_err());
    let mut interpreter = Interpreter::new();
    assert!(run(counted.to_string(), &mut interpreter, 10).is_ok());
    assert_eq!(interpreter.take_output(), vec!["10"]);
}

#[test]
fn values_without_their_class_are_shown_plainly() {
    let interpreter = Interpreter::new();
    assert_eq!(interpreter.display(&Value::Instance(9)), "instance");
    assert_eq!(interpreter.display(&Value::Class(9)), "class");
    assert_eq!(Value::Instance(0).display(), "instance");
    assert_eq!(Value::Class(0).display(), "class");
}

#[test]
fn values_of_a_program_are_called_from_outside() {
    let mut interpreter = Interpreter::new();
    run(
        "fun twice(x) { return x + x; } class P { init(n) { this.n = n; } }".to_string(),
        &mut interpreter,
        u64::MAX,
    )
    .unwrap();
    let site = token(TokenType::RightParen, ")");
    let twice = interpreter.lookup_variable(&token(TokenType::Identifier, "twice"), None).unwrap();
    let result = interpreter.call(&twice, &vec![number(4.0)], &site, 100).unwrap();
    assert!(result.equals(&number(8.0)));
    assert_eq!(twice.arity(&interpreter), Some(1));
    let class = interpreter.lookup_variable(&token(TokenType::Identifier, "P"), None).unwrap();
    let instance = class.call(&mut interpreter, &vec![number(1.0)], &site, 100).unwrap();
    assert_eq!(interpreter.display(&instance), "P instance");
    let field = interpreter.property(instance, &token(TokenType::Identifier, "n")).unwrap();
    assert!(field.equals(&number(1.0)));
}

#[test]
fn messages_of_runtime_errors() {
    let site = token(TokenType::Minus, "-");
    assert_eq!(
        RuntimeError::thrown_at(Failure::OperandNotNumber, &site).message(),
        "[line 7] Error at '-': Operand must be a number."
    );
    assert_eq!(
        RuntimeError::thrown(Failure::Exhausted).message(),
        "[line 0] Error at '': Evaluation budget exhausted."
    );
    assert_eq!(
        RuntimeError::Return(Value::Nil).message(),
        "Can't return from top-level code."
    );
    let texts: Vec<String> = [
        Failure::OperandsNotAddable,
        Failure::UnknownOperator,
        Failure::UndefinedVariable,
        Failure::UndefinedProperty,
        Failure::NotCallable,
        Failure::Arity { expected: 12, got: 0 },
        Failure::NoProperties,
        Failure::NoFields,
        Failure::SuperclassNotClass,
        Failure::NativeArgument,
        Failure::Dangling,
    ]
    .iter()
    .map(|f| f.describe())
    .collect();
    assert_eq!(
        texts,
        vec![
            "Operator `+` can only be applied to `string` or `number`.",
            "Unknown operator.",
            "Undefined variable.",
            "Undefined property.",
            "Can only call functions or classes.",
            "Expected 12 arguments but got 0.",
            "Only instances have properties.",
            "Only instances have fields.",
            "Superclass must be a class.",
            "Invalid argument to a native function.",
            "Reference to an object that does not exist.",
        ]
    );
}

#[test]
fn unknown_operators_fail() {
    let interpreter = Interpreter::new();
    let odd = token(TokenType::Comma, ",");
    assert!(interpreter.binary(&odd, number(1.0), number(2.0)).is_err());
    assert!(Interpreter::unary(&odd, number(1.0)).is_err());
    let plus = token(TokenType::Plus, "+");
    assert!(interpreter.binary(&plus, number(1.0), number(2.0)).unwrap().equals(&number(3.0)));
    let equal = token(TokenType::EqualEqual, "==");
    let unequal = token(TokenType::BangEqual, "!=");
    for (a, b) in [(number(1.0), number(1.0)), (number(f64::NAN), number(f64::NAN)), (Value::Nil, number(0.0))] {
        let same = interpreter.binary(&equal, a.clone(), b.clone()).unwrap().bool().unwrap();
        let other = interpreter.binary(&unequal, a, b).unwrap().bool().unwrap();
        assert_eq!(same, !other);
    }
}

#[test]
fn state_lasts_from_run_to_run() {
    let mut interpreter = Interpreter::new();
    run("var a = 1; fun f() { return a; }".to_string(), &mut interpreter, u64::MAX).unwrap();
    assert!(run("print b;".to_string(), &mut interpreter, u64::MAX).is_err());
    run("a = a + 1; print f();".to_string(), &mut interpreter, u64::MAX).unwrap();
    assert_eq!(interpreter.take_output(), vec!["2"]);
}

#[test]
fn tokens_run_like_their_text() {
    let mut interpreter = Interpreter::new();
    let tokens = Scanner::new("print 2 * 21;".to_string()).scan_tokens().unwrap();
    run_tokens(tokens, &mut interpreter, u64::MAX).unwrap();
    assert_eq!(interpreter.take_output(), vec!["42"]);
}

#[test]
fn later_methods_replace_earlier_ones() {
    let mut interpreter = Interpreter::new();
    run(
        "class A { f() { return 1; } f() { return 2; } } class B < A {} print B().f();".to_string(),
        &mut interpreter,
        u64::MAX,
    )
    .unwrap();
    assert_eq!(interpreter.take_output(), vec!["2"]);
}

#[test]
fn methods_are_bound_anew_each_time() {
    let mut interpreter = Interpreter::new();
    run(
        "class A { f() {} } var a = A(); print a.f == a.f; var m = a.f; print m == m; print A == A; print a == a; print a == A();".to_string(),
        &mut interpreter,
        u64::MAX,
    )
    .unwrap();
    assert_eq!(interpreter.take_output(), vec!["false", "true", "true", "true", "false"]);
}

#[test]
fn fields_shadow_methods() {
    let mut interpreter = Interpreter::new();
    run(
        "class A { f() { return \"method\"; } } var a = A(); a.f = \"field\"; print a.f;".to_string(),
        &mut interpreter,
        u64::MAX,
    )
    .unwrap();
    assert_eq!(interpreter.take_output(), vec!["field"]);
}

#[test]
fn visitor_is_called_for_the_kind_of_node() {
    let one = Literal { value: "1".to_string() };
    let minus = Unary {
        operator: token(TokenType::Minus, "-"),
        right: Node::Literal(Literal { value: "2".to_string() }),
    };
    assert_eq!(one.accept(&Operators), 0);
    assert_eq!(minus.accept(&Operators), 1);
    let group = Grouping { expression: Node::Unary(Box::new(minus)) };
    assert_eq!(group.accept(&Operators), 0);
    let sum = Binary {
        left: Node::Literal(one),
        operator: token(TokenType::Plus, "+"),
        right: Node::Grouping(Box::new(group)),
    };
    assert_eq!(sum.accept(&Operators), 1);
    assert_eq!(Node::Binary(Box::new(sum)).accept(&Operators), 1);
}
