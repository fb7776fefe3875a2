//! Tokens: what the scanner hands to the parsers.

use crate::number::Number;
use vstd::prelude::*;

verus! {

#[derive(Debug, Clone, Copy, PartialEq, Eq, Structural, Hash)]
pub enum TokenType {
    // Single character tokens
    LeftParen,
    RightParen,
    LeftBrace,
    RightBrace,
    Comma,
    Dot,
    Minus,
    Plus,
    Semicolon,
    Slash,
    Star,
    // One or two characters tokens
    Bang,
    BangEqual,
    Equal,
    EqualEqual,
    Greater,
    GreaterEqual,
    Less,
    LessEqual,
    // Literals
    Identifier,
    String,
    Number,
    // Keywords
    And,
    Class,
    Else,
    False,
    Fun,
    For,
    If,
    Nil,
    Or,
    Print,
    Return,
    Super,
    This,
    True,
    Var,
    While,
    // End of input
    EoF,
}

/// Whether two texts hold the same characters.
pub fn same_text(a: &str, b: &str) -> (r: bool)
    ensures
        r == (a@ == b@),
{
    a.to_owned() == b.to_owned()
}

impl TokenType {
    /// The keyword that a text spells, if it is a reserved word.
    pub open spec fn keyword(text: Seq<char>) -> Option<TokenType> {
        if text == "and"@ {
            Some(TokenType::And)
        } else if text == "class"@ {
            Some(TokenType::Class)
        } else if text == "else"@ {
            Some(TokenType::Else)
        } else if text == "false"@ {
            Some(TokenType::False)
        } else if text == "fun"@ {
            Some(TokenType::Fun)
        } else if text == "for"@ {
            Some(TokenType::For)
        } else if text == "if"@ {
            Some(TokenType::If)
        } else if text == "nil"@ {
            Some(TokenType::Nil)
        } else if text == "or"@ {
            Some(TokenType::Or)
        } else if text == "print"@ {
            Some(TokenType::Print)
        } else if text == "return"@ {
            Some(TokenType::Return)
        } else if text == "super"@ {
            Some(TokenType::Super)
        } else if text == "this"@ {
            Some(TokenType::This)
        } else if text == "true"@ {
            Some(TokenType::True)
        } else if text == "var"@ {
            Some(TokenType::Var)
        } else if text == "while"@ {
            Some(TokenType::While)
        } else {
            None
        }
    }

    pub fn from_keyword(keyword: &str) -> (r: Option<Self>)
        ensures
            r == Self::keyword(keyword@),
    {
        if same_text(keyword, "and") {
            Some(Self::And)
        } else if same_text(keyword, "class") {
            Some(Self::Class)
        } else if same_text(keyword, "else") {
            Some(Self::Else)
        } else if same_text(keyword, "false") {
            Some(Self::False)
        } else if same_text(keyword, "fun") {
            Some(Self::Fun)
        } else if same_text(keyword, "for") {
            Some(Self::For)
        } else if same_text(keyword, "if") {
            Some(Self::If)
        } else if same_text(keyword, "nil") {
            Some(Self::Nil)
        } else if same_text(keyword, "or") {
            Some(Self::Or)
        } else if same_text(keyword, "print") {
            Some(Self::Print)
        } else if same_text(keyword, "return") {
            Some(Self::Return)
        } else if same_text(keyword, "super") {
            Some(Self::Super)
        } else if same_text(keyword, "this") {
            Some(Self::This)
        } else if same_text(keyword, "true") {
            Some(Self::True)
        } else if same_text(keyword, "var") {
            Some(Self::Var)
        } else if same_text(keyword, "while") {
            Some(Self::While)
        } else {
            None
        }
    }
}

/// The value that a literal of the source text writes.
#[derive(Debug)]
pub enum Literal {
    Nil,
    Bool(bool),
    Number(Number),
    String(String),
}

/// A literal seen through the characters of its text.
pub enum LiteralView {
    Nil,
    Bool(bool),
    Number(Number),
    String(Seq<char>),
}

impl View for Literal {
    type V = LiteralView;

    open spec fn view(&self) -> LiteralView {
        match self {
            Literal::Nil => LiteralView::Nil,
            Literal::Bool(b) => LiteralView::Bool(*b),
            Literal::Number(n) => LiteralView::Number(*n),
            Literal::String(s) => LiteralView::String(s@),
        }
    }
}

impl Clone for Literal {
    fn clone(&self) -> (r: Self)
        ensures
            r == *self,
    {
        match self {
            Literal::Nil => Literal::Nil,
            Literal::Bool(b) => Literal::Bool(*b),
            Literal::Number(n) => Literal::Number(*n),
            Literal::String(s) => Literal::String(s.clone()),
        }
    }
}

/// A token: its kind, the text it was read from, the value it writes if it
/// is a string or a number, and the line it ends on.
#[derive(Debug)]
pub struct Token {
    pub ty: TokenType,
    pub lexeme: String,
    pub literal: Option<Literal>,
    pub line: usize,
}

pub struct TokenView {
    pub ty: TokenType,
    pub lexeme: Seq<char>,
    pub literal: Option<LiteralView>,
    pub line: usize,
}

impl View for Token {
    type V = TokenView;

    open spec fn view(&self) -> TokenView {
        TokenView {
            ty: self.ty,
            lexeme: self.lexeme@,
            literal: match self.literal {
                Some(l) => Some(l@),
                None => None,
            },
            line: self.line,
        }
    }
}

impl Clone for Token {
    fn clone(&self) -> (r: Self)
        ensures
            r == *self,
    {
        Token {
            ty: self.ty,
            lexeme: self.lexeme.clone(),
            literal: match &self.literal {
                Some(l) => Some(l.clone()),
                None => None,
            },
            line: self.line,
        }
    }
}

} // verus!
