use lox::error::{Expected, ParserError, ParserErrors};
use lox::expr::Expr;
use lox::list::List;
use lox::parser::Parser;
use lox::scanner::Scanner;
use lox::stmt::Stmt;
use lox::token::{Literal, TokenType};

fn parse(source: &str) -> Result<List<Stmt>, ParserErrors> {
    let tokens = Scanner::new(source.to_string()).scan_tokens().unwrap();
    assert!(Parser::accepts(&tokens));
    Parser::new(tokens).parse()
}

fn statements(source: &str) -> Vec<Stmt> {
    let mut out = Vec::new();
    let mut at = parse(source).unwrap();
    while let List::Cons(first, rest) = at {
        out.push(first);
        at = *rest;
    }
    out
}

fn expression(source: &str) -> Expr {
    match statements(source).remove(0) {
        Stmt::Expression(e) => e,
        other => panic!("{:?}", other),
    }
}

fn errors(source: &str) -> Vec<ParserError> {
    parse(source).unwrap_err().0
}

#[test]
fn precedence_in_polish_notation() {
    assert_eq!(expression("1 + 2 * 3;").polish_notation(), "(+ 1 (* 2 3))");
    assert_eq!(expression("(1 + 2) * 3;").polish_notation(), "(* (group (+ 1 2)) 3)");
    assert_eq!(expression("1 - 2 - 3;").polish_notation(), "(- (- 1 2) 3)");
    assert_eq!(expression("-1 * !true;").polish_notation(), "(* (- 1) (! true))");
    assert_eq!(expression("1 < 2 == 3 >= 4;").polish_notation(), "(== (< 1 2) (>= 3 4))");
    assert_eq!(expression("1 == 2 != 3;").print(), "(!= (== 1 2) 3)");
}

#[test]
fn reverse_polish_notation() {
    assert_eq!(expression("1 + 2 * 3;").reverse_polish_notation(), "1 2 3 * +");
    assert_eq!(expression("(1 + 2) * -3;").reverse_polish_notation(), "1 2 + 3 - *");
    assert_eq!(expression("\"a\" + nil;").reverse_polish_notation(), "a nil +");
}

#[test]
fn logical_operators_nest_and_inside_or() {
    match expression("a or b and c == d;") {
        Expr::Logical { left, operator, right } => {
            assert_eq!(operator.ty, TokenType::Or);
            assert!(matches!(*left, Expr::Variable { .. }));
            match *right {
                Expr::Logical { operator, right, .. } => {
                    assert_eq!(operator.ty, TokenType::And);
                    assert!(matches!(*right, Expr::Binary { .. }));
                }
                other => panic!("{:?}", other),
            }
        }
        other => panic!("{:?}", other),
    }
}

#[test]
fn assignment_is_right_associative() {
    match expression("a = b = 1;") {
        Expr::Assign { name, value, depth } => {
            assert_eq!(name.lexeme, "a");
            assert_eq!(depth, None);
            assert!(matches!(*value, Expr::Assign { .. }));
        }
        other => panic!("{:?}", other),
    }
}

#[test]
fn property_assignment_sets_a_field() {
    match expression("a.b.c = 1;") {
        Expr::SetField { object, name, .. } => {
            assert_eq!(name.lexeme, "c");
            assert!(matches!(*object, Expr::Get { .. }));
        }
        other => panic!("{:?}", other),
    }
}

#[test]
fn invalid_assignment_target() {
    let errors = errors("1 + 2 = 3;");
    assert_eq!(errors.len(), 1);
    match &errors[0] {
        ParserError::InvalidAssignmentTarget(token) => assert_eq!(token.ty, TokenType::Equal),
        other => panic!("{:?}", other),
    }
    assert_eq!(errors[0].message(), "[line 1] Error at '=': Invalid assignment target.");
}

#[test]
fn calls_and_properties_chain() {
    match expression("a(1, 2).b(3);") {
        Expr::Call { callee, arguments, .. } => {
            assert_eq!(arguments.count(), 1);
            match *callee {
                Expr::Get { object, name } => {
                    assert_eq!(name.lexeme, "b");
                    match *object {
                        Expr::Call { arguments, .. } => assert_eq!(arguments.count(), 2),
                        other => panic!("{:?}", other),
                    }
                }
                other => panic!("{:?}", other),
            }
        }
        other => panic!("{:?}", other),
    }
}

#[test]
fn for_is_desugared() {
    let mut program = statements("for (var i = 0; i < 3; i = i + 1) print i;");
    match program.remove(0) {
        Stmt::Block(outer) => match &*outer {
            List::Cons(Stmt::Var { name, .. }, rest) => {
                assert_eq!(name.lexeme, "i");
                match &**rest {
                    List::Cons(Stmt::While { body, .. }, end) => {
                        assert!(matches!(**end, List::Nil));
                        match &**body {
                            Stmt::Block(round) => match &**round {
                                List::Cons(Stmt::Print(_), more) => {
                                    assert!(matches!(
                                        **more,
                                        List::Cons(Stmt::Expression(Expr::Assign { .. }), _)
                                    ));
                                }
                                other => panic!("{:?}", other),
                            },
                            other => panic!("{:?}", other),
                        }
                    }
                    other => panic!("{:?}", other),
                }
            }
            other => panic!("{:?}", other),
        },
        other => panic!("{:?}", other),
    }
}

#[test]
fn for_without_clauses_loops_on_true() {
    let mut program = statements("for (;;) print 1;");
    match program.remove(0) {
        Stmt::While { condition, body } => {
            assert!(matches!(condition, Expr::Literal { value: Literal::Bool(true) }));
            assert!(matches!(*body, Stmt::Print(_)));
        }
        other => panic!("{:?}", other),
    }
}

#[test]
fn class_with_superclass_and_methods() {
    let mut program = statements("class B < A { init(x) {} f() { return super.f(); } }");
    match program.remove(0) {
        Stmt::Class { name, superclass, methods } => {
            assert_eq!(name.lexeme, "B");
            match superclass {
                Some(Expr::Variable { name, .. }) => assert_eq!(name.lexeme, "A"),
                other => panic!("{:?}", other),
            }
            assert_eq!(methods.count(), 2);
        }
        other => panic!("{:?}", other),
    }
}

#[test]
fn function_declaration() {
    let mut program = statements("fun add(a, b) { return a + b; }");
    match program.remove(0) {
        Stmt::Function(declaration) => {
            assert_eq!(declaration.name.lexeme, "add");
            assert_eq!(declaration.params.count(), 2);
            assert_eq!(declaration.body.count(), 1);
        }
        other => panic!("{:?}", other),
    }
}

#[test]
fn missing_tokens_are_reported_with_their_place() {
    let errors = errors("print 1");
    assert_eq!(errors.len(), 1);
    assert!(matches!(
        errors[0],
        ParserError::Consume { expected: Expected::SemicolonAfterValue, .. }
    ));
    assert_eq!(errors[0].message(), "[line 1] Error at '': Expect `;` after value.");
}

#[test]
fn expecting_expression() {
    let errors = errors("print ;\nprint 1;\n(");
    assert_eq!(errors.len(), 2);
    assert_eq!(errors[0].message(), "[line 1] Error at ';': Expecting expression.");
    assert_eq!(errors[1].message(), "[line 3] Error at '': Expecting expression.");
}

#[test]
fn parsing_takes_up_again_after_an_error() {
    let errors = errors("var 1 = 2; print 3; var = 4; { print }");
    assert_eq!(errors.len(), 3);
    assert!(matches!(
        errors[0],
        ParserError::Consume { expected: Expected::VariableName, .. }
    ));
    assert!(matches!(
        errors[1],
        ParserError::Consume { expected: Expected::VariableName, .. }
    ));
    assert!(matches!(errors[2], ParserError::ExpectingExpression(_)));
}

fn call_with(arguments: usize) -> String {
    let mut source = String::from("f(");
    for i in 0..arguments {
        if i > 0 {
            source.push_str(", ");
        }
        source.push_str("1");
    }
    source.push_str(");");
    source
}

fn function_with(parameters: usize) -> String {
    let mut source = String::from("fun f(");
    for i in 0..parameters {
        if i > 0 {
            source.push_str(", ");
        }
        source.push_str(&format!("p{}", i));
    }
    source.push_str(") {}");
    source
}

#[test]
fn at_most_255_arguments() {
    assert!(parse(&call_with(255)).is_ok());
    let errors = errors(&call_with(256));
    assert!(matches!(errors[0], ParserError::TooManyArguments(_)));
    assert_eq!(
        errors[0].message(),
        "[line 1] Error at '1': Can't have more than 255 arguments."
    );
}

#[test]
fn at_most_255_parameters() {
    assert!(parse(&function_with(255)).is_ok());
    let errors = errors(&function_with(256));
    assert!(matches!(errors[0], ParserError::TooManyParameters(_)));
}

#[test]
fn parser_errors_are_listed_line_by_line() {
    let report = parse("print 1\nprint 2 print 3;\n(").unwrap_err().message();
    assert_eq!(
        report,
        "[line 2] Error at 'print': Expect `;` after value.\n[line 3] Error at '': Expecting expression.\n"
    );
}

#[test]
fn empty_program() {
    assert!(matches!(parse("").unwrap(), List::Nil));
}

#[test]
fn nodes_describe_themselves() {
    assert_eq!(expression("1 + 2;").describe(), "+");
    assert_eq!(expression("(1);").describe(), "grouping");
    assert_eq!(expression("a = 1;").describe(), "assign a");
    assert_eq!(expression("f();").describe(), "call");
    assert_eq!(expression("a;").describe(), "a");
    assert_eq!(expression("2.5;").describe(), "2.5");
    assert_eq!(expression("a or b;").describe(), "or");
    assert_eq!(expression("-a;").describe(), "-");
    assert_eq!(expression("a.b;").describe(), "get b");
    assert_eq!(expression("a.b = 1;").describe(), "set b");
}
