use lox::error::ScannerError;
use lox::number::Number;
use lox::scanner::Scanner;
use lox::token::{Literal, Token, TokenType};

fn scan(source: &str) -> Vec<Token> {
    Scanner::new(source.to_string()).scan_tokens().unwrap()
}

fn kinds(source: &str) -> Vec<TokenType> {
    scan(source).iter().map(|t| t.ty).collect()
}

#[test]
fn punctuation_and_operators() {
    assert_eq!(
        kinds("(){},.-+;/* ! != = == < <= > >="),
        vec![
            TokenType::LeftParen,
            TokenType::RightParen,
            TokenType::LeftBrace,
            TokenType::RightBrace,
            TokenType::Comma,
            TokenType::Dot,
            TokenType::Minus,
            TokenType::Plus,
            TokenType::Semicolon,
            TokenType::Slash,
            TokenType::Star,
            TokenType::Bang,
            TokenType::BangEqual,
            TokenType::Equal,
            TokenType::EqualEqual,
            TokenType::Less,
            TokenType::LessEqual,
            TokenType::Greater,
            TokenType::GreaterEqual,
            TokenType::EoF,
        ]
    );
}

#[test]
fn keywords_and_identifiers() {
    assert_eq!(
        kinds("and class else false for fun if nil or print return super this true var while"),
        vec![
            TokenType::And,
            TokenType::Class,
            TokenType::Else,
            TokenType::False,
            TokenType::For,
            TokenType::Fun,
            TokenType::If,
            TokenType::Nil,
            TokenType::Or,
            TokenType::Print,
            TokenType::Return,
            TokenType::Super,
            TokenType::This,
            TokenType::True,
            TokenType::Var,
            TokenType::While,
            TokenType::EoF,
        ]
    );
    let tokens = scan("classy _x a_b1 For");
    assert_eq!(
        tokens.iter().map(|t| t.ty).collect::<Vec<_>>(),
        vec![
            TokenType::Identifier,
            TokenType::Identifier,
            TokenType::Identifier,
            TokenType::Identifier,
            TokenType::EoF
        ]
    );
    assert_eq!(tokens[0].lexeme, "classy");
    assert_eq!(tokens[1].lexeme, "_x");
    assert_eq!(tokens[2].lexeme, "a_b1");
}

#[test]
fn keyword_table() {
    assert_eq!(TokenType::from_keyword("while"), Some(TokenType::While));
    assert_eq!(TokenType::from_keyword("nil"), Some(TokenType::Nil));
    assert_eq!(TokenType::from_keyword("While"), None);
    assert_eq!(TokenType::from_keyword(""), None);
}

#[test]
fn numbers_carry_their_value() {
    let tokens = scan("12 3.5 7. .5");
    assert_eq!(tokens[0].ty, TokenType::Number);
    assert_eq!(tokens[0].lexeme, "12");
    match &tokens[0].literal {
        Some(Literal::Number(n)) => assert_eq!(n.to_bits(), 12.0f64.to_bits()),
        other => panic!("{:?}", other),
    }
    assert_eq!(tokens[1].lexeme, "3.5");
    match &tokens[1].literal {
        Some(Literal::Number(n)) => assert_eq!(*n, Number::from_bits(3.5f64.to_bits())),
        other => panic!("{:?}", other),
    }
    // a dot without a digit behind it is a token of its own
    assert_eq!(tokens[2].lexeme, "7");
    assert_eq!(tokens[3].ty, TokenType::Dot);
    assert_eq!(tokens[4].ty, TokenType::Dot);
    assert_eq!(tokens[5].lexeme, "5");
}

#[test]
fn strings_span_lines() {
    let tokens = scan("\"a\nb\" x");
    assert_eq!(tokens[0].ty, TokenType::String);
    assert_eq!(tokens[0].lexeme, "\"a\nb\"");
    match &tokens[0].literal {
        Some(Literal::String(s)) => assert_eq!(s, "a\nb"),
        other => panic!("{:?}", other),
    }
    assert_eq!(tokens[0].line, 2);
    assert_eq!(tokens[1].line, 2);
}

#[test]
fn comments_and_blanks_are_skipped() {
    let tokens = scan("a // b c\n\t d \r\n// e");
    assert_eq!(tokens.len(), 3);
    assert_eq!(tokens[0].lexeme, "a");
    assert_eq!(tokens[0].line, 1);
    assert_eq!(tokens[1].lexeme, "d");
    assert_eq!(tokens[1].line, 2);
    assert_eq!(tokens[2].ty, TokenType::EoF);
    assert_eq!(tokens[2].lexeme, "");
    assert_eq!(tokens[2].line, 3);
}

#[test]
fn empty_source_has_the_end_token() {
    let tokens = scan("");
    assert_eq!(tokens.len(), 1);
    assert_eq!(tokens[0].ty, TokenType::EoF);
    assert_eq!(tokens[0].line, 1);
}

#[test]
fn lines_never_go_down() {
    let tokens = scan("a\nb \"x\n\ny\" c\n\nd");
    let lines: Vec<usize> = tokens.iter().map(|t| t.line).collect();
    assert_eq!(lines, vec![1, 2, 4, 4, 6, 6]);
}

#[test]
fn unknown_characters_are_collected() {
    let errors = Scanner::new("a # b ? \"open".to_string()).scan_tokens().unwrap_err();
    assert_eq!(errors.0.len(), 3);
    assert!(matches!(errors.0[0], ScannerError::Character('#')));
    assert!(matches!(errors.0[1], ScannerError::Character('?')));
    assert!(matches!(errors.0[2], ScannerError::String));
    assert_eq!(
        errors.message(),
        "Unexpected character `#`.\nUnexpected character `?`.\nUnterminated string.\n"
    );
}

#[test]
fn number_error_message() {
    assert_eq!(
        ScannerError::Number("12".to_string()).message(),
        "Could not convert 12 to a number."
    );
}

#[test]
fn letters_outside_ascii_start_no_name() {
    let errors = Scanner::new("é".to_string()).scan_tokens().unwrap_err();
    assert!(matches!(errors.0[0], ScannerError::Character('é')));
}
