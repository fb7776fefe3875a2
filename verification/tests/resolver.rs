use lox::expr::Expr;
use lox::list::List;
use lox::parser::Parser;
use lox::resolver::{ResolveError, Resolver};
use lox::scanner::Scanner;
use lox::stmt::Stmt;

fn resolve(source: &str) -> Result<List<Stmt>, ResolveError> {
    let tokens = Scanner::new(source.to_string()).scan_tokens().unwrap();
    let stmts = Parser::new(tokens).parse().unwrap();
    Resolver::new().resolve(&stmts)
}

fn depths_in_expr(e: &Expr, out: &mut Vec<(String, Option<usize>)>) {
    match e {
        Expr::Assign { name, value, depth } => {
            depths_in_expr(value, out);
            out.push((name.lexeme.clone(), *depth));
        }
        Expr::Binary { left, right, .. } | Expr::Logical { left, right, .. } => {
            depths_in_expr(left, out);
            depths_in_expr(right, out);
        }
        Expr::Call { callee, arguments, .. } => {
            depths_in_expr(callee, out);
            let mut at = &**arguments;
            while let List::Cons(first, rest) = at {
                depths_in_expr(first, out);
                at = rest;
            }
        }
        Expr::Get { object, .. } => depths_in_expr(object, out),
        Expr::Grouping { expression } => depths_in_expr(expression, out),
        Expr::Literal { .. } => {}
        Expr::SetField { object, value, .. } => {
            depths_in_expr(value, out);
            depths_in_expr(object, out);
        }
        Expr::Super { keyword, depth, .. } => out.push((keyword.lexeme.clone(), *depth)),
        Expr::This { keyword, depth } => out.push((keyword.lexeme.clone(), *depth)),
        Expr::Unary { right, .. } => depths_in_expr(right, out),
        Expr::Variable { name, depth } => out.push((name.lexeme.clone(), *depth)),
    }
}

fn depths_in_stmts(stmts: &List<Stmt>, out: &mut Vec<(String, Option<usize>)>) {
    let mut at = stmts;
    while let List::Cons(first, rest) = at {
        depths_in_stmt(first, out);
        at = rest;
    }
}

fn depths_in_stmt(s: &Stmt, out: &mut Vec<(String, Option<usize>)>) {
    match s {
        Stmt::Block(stmts) => depths_in_stmts(stmts, out),
        Stmt::Class { superclass, methods, .. } => {
            if let Some(parent) = superclass {
                depths_in_expr(parent, out);
            }
            let mut at = &**methods;
            while let List::Cons(first, rest) = at {
                depths_in_stmts(&first.body, out);
                at = rest;
            }
        }
        Stmt::Expression(e) | Stmt::Print(e) => depths_in_expr(e, out),
        Stmt::Function(declaration) => depths_in_stmts(&declaration.body, out),
        Stmt::If { condition, then_branch, else_branch } => {
            depths_in_expr(condition, out);
            depths_in_stmt(then_branch, out);
            if let Some(other) = else_branch {
                depths_in_stmt(other, out);
            }
        }
        Stmt::Return { value, .. } => {
            if let Some(e) = value {
                depths_in_expr(e, out);
            }
        }
        Stmt::Var { initializer, .. } => {
            if let Some(e) = initializer {
                depths_in_expr(e, out);
            }
        }
        Stmt::While { condition, body } => {
            depths_in_expr(condition, out);
            depths_in_stmt(body, out);
        }
    }
}

fn depths(source: &str) -> Vec<(String, Option<usize>)> {
    let mut out = Vec::new();
    depths_in_stmts(&resolve(source).unwrap(), &mut out);
    out
}

fn pair(name: &str, depth: Option<usize>) -> (String, Option<usize>) {
    (name.to_string(), depth)
}

#[test]
fn globals_have_no_distance() {
    assert_eq!(depths("var a = 1; print a; a = 2;"), vec![pair("a", None), pair("a", None)]);
}

#[test]
fn locals_count_the_scopes_between() {
    assert_eq!(
        depths("{ var a = 1; { var b = a; { print a; print b; a = b; } } }"),
        vec![
            pair("a", Some(1)),
            pair("a", Some(2)),
            pair("b", Some(1)),
            pair("b", Some(1)),
            pair("a", Some(2)),
        ]
    );
}

#[test]
fn the_innermost_declaration_wins() {
    assert_eq!(
        depths("{ var a = 1; { var a = 2; print a; } print a; }"),
        vec![pair("a", Some(0)), pair("a", Some(0))]
    );
}

#[test]
fn parameters_share_the_scope_of_the_body() {
    assert_eq!(
        depths("fun f(a) { var b = a; { print a + b; } return f; }"),
        vec![pair("a", Some(0)), pair("a", Some(1)), pair("b", Some(1)), pair("f", None)]
    );
}

#[test]
fn this_and_super_have_scopes_of_their_own() {
    assert_eq!(
        depths("class A { f() { return this; } } class B < A { g() { { this; } return super.f; } }"),
        vec![pair("this", Some(1)), pair("A", None), pair("this", Some(2)), pair("super", Some(2))]
    );
}

#[test]
fn closure_refers_to_the_enclosing_function() {
    assert_eq!(
        depths("fun outer() { var n = 0; fun inner() { n = n + 1; return n; } return inner; }"),
        vec![pair("n", Some(1)), pair("n", Some(1)), pair("n", Some(1)), pair("inner", Some(0))]
    );
}

#[test]
fn resolving_again_changes_nothing() {
    let once = resolve("{ var a = 1; fun f(b) { return a + b; } class C { m() { return this; } } }")
        .unwrap();
    let twice = Resolver::new().resolve(&once).unwrap();
    let mut first = Vec::new();
    let mut second = Vec::new();
    depths_in_stmts(&once, &mut first);
    depths_in_stmts(&twice, &mut second);
    assert_eq!(first, second);
    assert_eq!(format!("{:?}", once), format!("{:?}", twice));
}

#[test]
fn duplicate_declaration_in_a_scope() {
    let error = resolve("{ var a = 1; var a = 2; }").unwrap_err();
    assert!(matches!(error, ResolveError::AlreadyDeclared(_)));
    assert_eq!(
        error.message(),
        "[line 1] Error at 'a': Already a variable with this name in this scope."
    );
    assert!(resolve("var a = 1; var a = 2;").is_ok());
    assert!(matches!(
        resolve("fun f(a, a) {}").unwrap_err(),
        ResolveError::AlreadyDeclared(_)
    ));
}

#[test]
fn own_initializer() {
    let error = resolve("{ var a = 1; { var a = a; } }").unwrap_err();
    assert!(matches!(error, ResolveError::OwnInitializer(_)));
    assert_eq!(
        error.message(),
        "[line 1] Error at 'a': Can't read local variable in its own initializer."
    );
}

#[test]
fn return_outside_a_function() {
    assert!(matches!(resolve("return;").unwrap_err(), ResolveError::TopLevelReturn(_)));
    assert!(matches!(resolve("{ return 1; }").unwrap_err(), ResolveError::TopLevelReturn(_)));
    assert!(resolve("fun f() { return 1; }").is_ok());
}

#[test]
fn return_in_an_initializer() {
    assert!(matches!(
        resolve("class A { init() { return 1; } }").unwrap_err(),
        ResolveError::InitializerReturn(_)
    ));
    assert!(resolve("class A { init() { return; } }").is_ok());
    assert!(resolve("class A { other() { return 1; } }").is_ok());
}

#[test]
fn this_outside_a_class() {
    assert!(matches!(resolve("print this;").unwrap_err(), ResolveError::ThisOutsideClass(_)));
    assert!(matches!(
        resolve("fun f() { return this; }").unwrap_err(),
        ResolveError::ThisOutsideClass(_)
    ));
}

#[test]
fn super_misused() {
    assert!(matches!(resolve("super.f;").unwrap_err(), ResolveError::SuperOutsideClass(_)));
    assert!(matches!(
        resolve("class A { f() { return super.f; } }").unwrap_err(),
        ResolveError::SuperWithoutSuperclass(_)
    ));
}

#[test]
fn class_inheriting_from_itself() {
    let error = resolve("class Cycle < Cycle {}").unwrap_err();
    assert!(matches!(error, ResolveError::InheritsFromItself(_)));
    assert_eq!(error.message(), "[line 1] Error at 'Cycle': A class can't inherit from itself.");
}

#[test]
fn function_kind_is_restored_after_a_function() {
    assert!(matches!(
        resolve("fun f() {} return;").unwrap_err(),
        ResolveError::TopLevelReturn(_)
    ));
    assert!(matches!(
        resolve("class A { f() {} } print this;").unwrap_err(),
        ResolveError::ThisOutsideClass(_)
    ));
}
