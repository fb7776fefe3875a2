use lox::generator::{define_ast, define_type, define_visitor, file_name, parse_type};

#[test]
fn description_is_read() {
    let ty = parse_type("Binary:     Box<dyn Expr> left, Token operator, Box<dyn Expr> right").unwrap();
    assert_eq!(ty.name, "Binary");
    let fields: Vec<(String, String)> =
        ty.fields.iter().map(|f| (f.ty.clone(), f.name.clone())).collect();
    assert_eq!(
        fields,
        vec![
            ("Box<dyn Expr>".to_string(), "left".to_string()),
            ("Token".to_string(), "operator".to_string()),
            ("Box<dyn Expr>".to_string(), "right".to_string()),
        ]
    );
    let ty = parse_type("  Literal :String   value  ").unwrap();
    assert_eq!(ty.name, "Literal");
    assert_eq!(ty.fields.len(), 1);
    assert_eq!(ty.fields[0].ty, "String");
    assert_eq!(ty.fields[0].name, "value");
}

#[test]
fn malformed_descriptions() {
    assert!(parse_type("Literal").is_none());
    assert!(parse_type("Literal:").is_none());
    assert!(parse_type("Literal: value").is_none());
    assert!(parse_type("Literal: String value,").is_none());
    assert!(parse_type("Literal: String value, , Token t").is_none());
    assert!(define_ast("Expr", &vec!["Literal: String value".to_string(), "Odd".to_string()]).is_none());
}

#[test]
fn generated_file_name() {
    assert_eq!(file_name("Expr"), "expr.rs");
    assert_eq!(file_name("StmtNode"), "stmtnode.rs");
}

#[test]
fn generated_visitor() {
    let types = vec![
        parse_type("Binary: Expr left, Token operator").unwrap(),
        parse_type("Literal: String value").unwrap(),
    ];
    assert_eq!(
        define_visitor("Expr", &types),
        "pub trait Visitor<R> {\n\tfn visit_binary_expr(&self, expr: &Binary) -> R;\n\tfn visit_literal_expr(&self, expr: &Literal) -> R;\n}\n\n"
    );
}

#[test]
fn generated_type() {
    let ty = parse_type("Unary:      Token operator, Box<dyn Expr> right").unwrap();
    assert_eq!(
        define_type("Expr", &ty),
        "#[derive(Debug)]\npub struct Unary {\n\tpub operator: Token,\n\tpub right: Box<dyn Expr>,\n}\n\nimpl Expr for Unary {\n\tfn accept<R>(&self, visitor: &impl Visitor<R>) -> R {\n\t\tvisitor.visit_unary_expr(self)\n\t}\n}\n\n"
    );
}

#[test]
fn generated_source() {
    let text = define_ast(
        "Expr",
        &vec!["Grouping:   Box<dyn Expr> expression".to_string(), "Literal:    String value".to_string()],
    )
    .unwrap();
    let expected = String::from("use crate::token::Token;\n\n")
        + "pub trait Expr: std::fmt::Debug {\n"
        + "\tfn accept<R>(&self, visitor: &impl Visitor<R>) -> R\n"
        + "\twhere\n"
        + "\t\tSelf: Sized;\n"
        + "}\n\n"
        + "pub trait Visitor<R> {\n"
        + "\tfn visit_grouping_expr(&self, expr: &Grouping) -> R;\n"
        + "\tfn visit_literal_expr(&self, expr: &Literal) -> R;\n"
        + "}\n\n"
        + "#[derive(Debug)]\npub struct Grouping {\n\tpub expression: Box<dyn Expr>,\n}\n\n"
        + "impl Expr for Grouping {\n\tfn accept<R>(&self, visitor: &impl Visitor<R>) -> R {\n\t\tvisitor.visit_grouping_expr(self)\n\t}\n}\n\n"
        + "#[derive(Debug)]\npub struct Literal {\n\tpub value: String,\n}\n\n"
        + "impl Expr for Literal {\n\tfn accept<R>(&self, visitor: &impl Visitor<R>) -> R {\n\t\tvisitor.visit_literal_expr(self)\n\t}\n}\n\n";
    assert_eq!(text, expected);
}
