//! The scanner: source text to tokens.

use crate::error::{ScannerError, ScannerErrorView, ScannerErrors};
use crate::number::{parsed, Number};
use crate::text::{chars_of, digit_of, is_digit, string_from, text_of};
use crate::token::{Literal, LiteralView, Token, TokenType, TokenView};
use vstd::prelude::*;

verus! {

/// The kinds of character runs that the scanner skips over in one go.
#[derive(Clone, Copy, PartialEq, Eq, Structural)]
pub enum Run {
    /// Decimal digits.
    Digits,
    /// Letters, digits and `_`.
    Name,
    /// Anything but a line feed.
    Comment,
    /// Anything but a double quote.
    Quoted,
}

pub open spec fn name_start(c: char) -> bool {
    ('a' <= c && c <= 'z') || ('A' <= c && c <= 'Z') || c == '_'
}

impl Run {
    pub open spec fn holds(self, c: char) -> bool {
        match self {
            Run::Digits => is_digit(c),
            Run::Name => name_start(c) || is_digit(c),
            Run::Comment => c != '\n',
            Run::Quoted => c != '"',
        }
    }

    fn has(self, c: char) -> (r: bool)
        ensures
            r == self.holds(c),
    {
        match self {
            Run::Digits => digit_of(c).is_some(),
            Run::Name => starts_name(c) || digit_of(c).is_some(),
            Run::Comment => c != '\n',
            Run::Quoted => c != '"',
        }
    }
}

fn starts_name(c: char) -> (r: bool)
    ensures
        r == name_start(c),
{
    ('a' <= c && c <= 'z') || ('A' <= c && c <= 'Z') || c == '_'
}

/// Where the run of `run` characters that starts at `from` ends.
pub open spec fn run_end(src: Seq<char>, from: int, run: Run) -> int
    decreases src.len() - from,
{
    if 0 <= from < src.len() && run.holds(src[from]) {
        run_end(src, from + 1, run)
    } else {
        from
    }
}

/// How many line feeds stand in `src[from..to]`.
pub open spec fn line_feeds(src: Seq<char>, from: int, to: int) -> int
    decreases to - from,
{
    if 0 <= from < to && from < src.len() {
        (if src[from] == '\n' {
            1int
        } else {
            0int
        }) + line_feeds(src, from + 1, to)
    } else {
        0
    }
}

/// What one step of the scanner found.
pub enum Lexed {
    Token(TokenView),
    Nothing,
    Error(ScannerErrorView),
}

/// One step of the scanner: where it stopped, on which line, and what it found.
pub struct Step {
    pub next: int,
    pub line: int,
    pub lexed: Lexed,
}

/// A token of `len` characters without a value.
pub open spec fn plain(src: Seq<char>, pos: int, line: int, ty: TokenType, len: int) -> Step {
    Step {
        next: pos + len,
        line,
        lexed: Lexed::Token(
            TokenView {
                ty,
                lexeme: src.subrange(pos, pos + len),
                literal: None,
                line: line as usize,
            },
        ),
    }
}

/// A token of one character, or of two if `second` follows.
pub open spec fn one_or_two(
    src: Seq<char>,
    pos: int,
    line: int,
    second: char,
    two: TokenType,
    one: TokenType,
) -> Step {
    if pos + 1 < src.len() && src[pos + 1] == second {
        plain(src, pos, line, two, 2)
    } else {
        plain(src, pos, line, one, 1)
    }
}

/// A string: up to the closing quote, over line feeds; an error if the
/// source ends first.
pub open spec fn string_step(src: Seq<char>, pos: int, line: int) -> Step {
    let close = run_end(src, pos + 1, Run::Quoted);
    let last_line = line + line_feeds(src, pos + 1, close);
    if close >= src.len() {
        Step { next: src.len() as int, line: last_line, lexed: Lexed::Error(ScannerErrorView::String) }
    } else {
        Step {
            next: close + 1,
            line: last_line,
            lexed: Lexed::Token(
                TokenView {
                    ty: TokenType::String,
                    lexeme: src.subrange(pos, close + 1),
                    literal: Some(LiteralView::String(src.subrange(pos + 1, close))),
                    line: last_line as usize,
                },
            ),
        }
    }
}

/// Where the number that starts at `pos` ends: digits, then a dot and
/// digits if at least one digit follows the dot.
pub open spec fn number_end(src: Seq<char>, pos: int) -> int {
    let whole = run_end(src, pos, Run::Digits);
    if whole + 1 < src.len() && src[whole] == '.' && is_digit(src[whole + 1]) {
        run_end(src, whole + 1, Run::Digits)
    } else {
        whole
    }
}

pub open spec fn number_step(src: Seq<char>, pos: int, line: int) -> Step {
    let end = number_end(src, pos);
    let text = src.subrange(pos, end);
    Step {
        next: end,
        line,
        lexed: match parsed(text) {
            Some(n) => Lexed::Token(
                TokenView {
                    ty: TokenType::Number,
                    lexeme: text,
                    literal: Some(LiteralView::Number(n)),
                    line: line as usize,
                },
            ),
            None => Lexed::Error(ScannerErrorView::Number(text)),
        },
    }
}

pub open spec fn identifier_step(src: Seq<char>, pos: int, line: int) -> Step {
    let end = run_end(src, pos + 1, Run::Name);
    let text = src.subrange(pos, end);
    Step {
        next: end,
        line,
        lexed: Lexed::Token(
            TokenView {
                ty: match TokenType::keyword(text) {
                    Some(ty) => ty,
                    None => TokenType::Identifier,
                },
                lexeme: text,
                literal: None,
                line: line as usize,
            },
        ),
    }
}

/// What the scanner does at `pos`, which is inside the source.
pub open spec fn step(src: Seq<char>, pos: int, line: int) -> Step {
    let c = src[pos];
    if c == '(' {
        plain(src, pos, line, TokenType::LeftParen, 1)
    } else if c == ')' {
        plain(src, pos, line, TokenType::RightParen, 1)
    } else if c == '{' {
        plain(src, pos, line, TokenType::LeftBrace, 1)
    } else if c == '}' {
        plain(src, pos, line, TokenType::RightBrace, 1)
    } else if c == ',' {
        plain(src, pos, line, TokenType::Comma, 1)
    } else if c == '.' {
        plain(src, pos, line, TokenType::Dot, 1)
    } else if c == '-' {
        plain(src, pos, line, TokenType::Minus, 1)
    } else if c == '+' {
        plain(src, pos, line, TokenType::Plus, 1)
    } else if c == ';' {
        plain(src, pos, line, TokenType::Semicolon, 1)
    } else if c == '*' {
        plain(src, pos, line, TokenType::Star, 1)
    } else if c == '!' {
        one_or_two(src, pos, line, '=', TokenType::BangEqual, TokenType::Bang)
    } else if c == '=' {
        one_or_two(src, pos, line, '=', TokenType::EqualEqual, TokenType::Equal)
    } else if c == '<' {
        one_or_two(src, pos, line, '=', TokenType::LessEqual, TokenType::Less)
    } else if c == '>' {
        one_or_two(src, pos, line, '=', TokenType::GreaterEqual, TokenType::Greater)
    } else if c == '/' {
        if pos + 1 < src.len() && src[pos + 1] == '/' {
            Step { next: run_end(src, pos + 2, Run::Comment), line, lexed: Lexed::Nothing }
        } else {
            plain(src, pos, line, TokenType::Slash, 1)
        }
    } else if c == '\n' {
        Step { next: pos + 1, line: line + 1, lexed: Lexed::Nothing }
    } else if c == ' ' || c == '\r' || c == '\t' {
        Step { next: pos + 1, line, lexed: Lexed::Nothing }
    } else if c == '"' {
        string_step(src, pos, line)
    } else if is_digit(c) {
        number_step(src, pos, line)
    } else if name_start(c) {
        identifier_step(src, pos, line)
    } else {
        Step { next: pos + 1, line, lexed: Lexed::Error(ScannerErrorView::Character(c)) }
    }
}

/// The outcome of a scan: the tokens, the errors, and the line reached.
pub struct Scanned {
    pub tokens: Seq<TokenView>,
    pub errors: Seq<ScannerErrorView>,
    pub line: int,
}

/// The scan of `src[pos..]`, which starts on line `line`.
pub open spec fn scan(src: Seq<char>, pos: int, line: int) -> Scanned
    decreases src.len() - pos,
{
    if 0 <= pos < src.len() {
        let s = step(src, pos, line);
        if pos < s.next <= src.len() {
            let rest = scan(src, s.next, s.line);
            match s.lexed {
                Lexed::Token(t) => Scanned { tokens: seq![t] + rest.tokens, ..rest },
                Lexed::Nothing => rest,
                Lexed::Error(e) => Scanned { errors: seq![e] + rest.errors, ..rest },
            }
        } else {
            Scanned { tokens: Seq::empty(), errors: Seq::empty(), line }
        }
    } else {
        Scanned { tokens: Seq::empty(), errors: Seq::empty(), line }
    }
}

/// The token that ends every token sequence.
pub open spec fn end_token(line: int) -> TokenView {
    TokenView { ty: TokenType::EoF, lexeme: Seq::empty(), literal: None, line: line as usize }
}

/// The tokens of a whole source text, the end token included.
pub open spec fn tokens_of(src: Seq<char>) -> Seq<TokenView> {
    scan(src, 0, 1).tokens.push(end_token(scan(src, 0, 1).line))
}

/// The errors of a whole source text.
pub open spec fn errors_of(src: Seq<char>) -> Seq<ScannerErrorView> {
    scan(src, 0, 1).errors
}

/// The token with given kind, text, value and line.
pub open spec fn token_of(view: TokenView) -> Token {
    Token {
        ty: view.ty,
        lexeme: string_from(view.lexeme),
        literal: match view.literal {
            Some(LiteralView::Nil) => Some(Literal::Nil),
            Some(LiteralView::Bool(b)) => Some(Literal::Bool(b)),
            Some(LiteralView::Number(n)) => Some(Literal::Number(n)),
            Some(LiteralView::String(s)) => Some(Literal::String(string_from(s))),
            None => None,
        },
        line: view.line,
    }
}

/// Whether the token is the one that its kind, text, value and line give.
pub open spec fn canonical(token: Token) -> bool {
    token == token_of(token@)
}

/// The tokens that the scanner makes of a source text.
pub open spec fn lexed(src: Seq<char>) -> Seq<Token> {
    tokens_of(src).map_values(|view: TokenView| token_of(view))
}

pub open spec fn token_views(tokens: Seq<Token>) -> Seq<TokenView> {
    tokens.map_values(|t: Token| t@)
}

pub open spec fn error_views(errors: Seq<ScannerError>) -> Seq<ScannerErrorView> {
    errors.map_values(|e: ScannerError| e@)
}

/// Every step moves on, and the line grows by no more than the position.
pub proof fn step_advances(src: Seq<char>, pos: int, line: int)
    requires
        0 <= pos < src.len(),
    ensures
        pos < step(src, pos, line).next <= src.len(),
        line <= step(src, pos, line).line,
        step(src, pos, line).line - line <= step(src, pos, line).next - pos,
{
    run_end_bounds(src, pos + 2, Run::Comment);
    run_end_bounds(src, pos + 1, Run::Quoted);
    run_end_bounds(src, pos + 1, Run::Name);
    run_end_bounds(src, pos, Run::Digits);
    let whole = run_end(src, pos, Run::Digits);
    run_end_bounds(src, whole + 1, Run::Digits);
    line_feeds_bounds(src, pos + 1, run_end(src, pos + 1, Run::Quoted));
    if is_digit(src[pos]) {
        assert(Run::Digits.holds(src[pos]));
        run_end_bounds(src, pos + 1, Run::Digits);
    }
}

pub proof fn run_end_bounds(src: Seq<char>, from: int, run: Run)
    ensures
        from <= src.len() ==> from <= run_end(src, from, run) <= src.len(),
        from > src.len() ==> run_end(src, from, run) == from,
    decreases src.len() - from,
{
    if 0 <= from < src.len() && run.holds(src[from]) {
        run_end_bounds(src, from + 1, run);
    }
}

pub proof fn line_feeds_bounds(src: Seq<char>, from: int, to: int)
    ensures
        0 <= line_feeds(src, from, to),
        from <= to ==> line_feeds(src, from, to) <= to - from,
    decreases to - from,
{
    if 0 <= from < to && from < src.len() {
        line_feeds_bounds(src, from + 1, to);
    }
}

/// Whether the lines of the tokens never go down.
pub open spec fn ascending(tokens: Seq<TokenView>) -> bool {
    forall|i: int, j: int|
        0 <= i <= j < tokens.len() ==> (#[trigger] tokens[i]).line <= (#[trigger] tokens[j]).line
}

/// The tokens of a scan stand on lines between the line where the scan
/// starts and the line where it ends, and their lines never go down.
pub proof fn scanned_lines_ascend(src: Seq<char>, pos: int, line: int)
    requires
        0 <= pos <= src.len(),
        1 <= line <= pos + 1,
        src.len() < usize::MAX,
    ensures
        line <= scan(src, pos, line).line <= src.len() + 1,
        forall|i: int|
            0 <= i < scan(src, pos, line).tokens.len() ==> line <= (#[trigger] scan(
                src,
                pos,
                line,
            ).tokens[i]).line <= scan(src, pos, line).line,
        ascending(scan(src, pos, line).tokens),
    decreases src.len() - pos,
{
    if pos < src.len() {
        step_advances(src, pos, line);
        let s = step(src, pos, line);
        scanned_lines_ascend(src, s.next, s.line);
        let rest = scan(src, s.next, s.line);
        let all = scan(src, pos, line);
        match s.lexed {
            Lexed::Token(t) => {
                assert(line <= t.line <= s.line);
                assert(all.tokens =~= seq![t] + rest.tokens);
                assert forall|i: int| 0 <= i < all.tokens.len() implies line <= (
                #[trigger] all.tokens[i]).line <= all.line by {
                    if i > 0 {
                        assert(all.tokens[i] == rest.tokens[i - 1]);
                    }
                }
                assert forall|i: int, j: int| 0 <= i <= j < all.tokens.len() implies (
                #[trigger] all.tokens[i]).line <= (#[trigger] all.tokens[j]).line by {
                    if i > 0 {
                        assert(all.tokens[i] == rest.tokens[i - 1]);
                        assert(all.tokens[j] == rest.tokens[j - 1]);
                    } else if j > 0 {
                        assert(all.tokens[j] == rest.tokens[j - 1]);
                    }
                }
            },
            Lexed::Nothing => {},
            Lexed::Error(_) => {},
        }
    }
}

/// The tokens of a source text come with lines that never go down, the
/// end token on the last line.
pub proof fn token_lines_ascend(src: Seq<char>)
    requires
        src.len() < usize::MAX,
    ensures
        ascending(tokens_of(src)),
        tokens_of(src).last().ty == TokenType::EoF,
{
    scanned_lines_ascend(src, 0, 1);
    let scanned = scan(src, 0, 1);
    let all = tokens_of(src);
    assert forall|i: int, j: int| 0 <= i <= j < all.len() implies (#[trigger] all[i]).line <= (
    #[trigger] all[j]).line by {
        if j < scanned.tokens.len() {
            assert(all[i] == scanned.tokens[i]);
            assert(all[j] == scanned.tokens[j]);
        } else if i < scanned.tokens.len() {
            assert(all[i] == scanned.tokens[i]);
        }
    }
}

/// Source text being scanned.
#[derive(Debug)]
pub struct Scanner {
    source: Vec<char>,
    tokens: Vec<Token>,
    start: usize,
    current: usize,
    line: usize,
}

impl Scanner {
    /// The characters still to scan and what was scanned so far.
    pub closed spec fn text(&self) -> Seq<char> {
        self.source@
    }

    pub closed spec fn fresh(&self) -> bool {
        self.tokens@.len() == 0 && self.start == 0 && self.current == 0 && self.line == 1
    }

    pub fn new(source: String) -> (r: Self)
        ensures
            r.text() == source@,
            r.fresh(),
    {
        Self { source: chars_of(source.as_str()), tokens: Vec::new(), start: 0, current: 0, line: 1 }
    }

    /// Scans the whole source. All errors are collected; there are tokens
    /// only if there was no error.
    pub fn scan_tokens(self) -> (r: Result<Vec<Token>, ScannerErrors>)
        requires
            self.fresh(),
            self.text().len() < usize::MAX,
        ensures
            match r {
                Ok(tokens) => errors_of(self.text()).len() == 0 && token_views(tokens@)
                    == tokens_of(self.text()) && tokens@ == lexed(self.text()),
                Err(errors) => errors.0.len() > 0 && error_views(errors.0@) == errors_of(
                    self.text(),
                ),
            },
    {
        let mut errors: Vec<ScannerError> = Vec::new();
        let ghost src = self.source@;
        let ghost given = self;
        let mut scanner = self;
        assert(token_views(scanner.tokens@) =~= Seq::<TokenView>::empty());
        assert(error_views(errors@) =~= Seq::<ScannerErrorView>::empty());
        while !scanner.is_at_end()
            invariant
                scanner.source@ == src,
                src.len() < usize::MAX,
                scanner.current <= src.len(),
                forall|i: int|
                    0 <= i < scanner.tokens@.len() ==> canonical(#[trigger] scanner.tokens@[i]),
                1 <= scanner.line <= scanner.current + 1,
                token_views(scanner.tokens@) + scan(src, scanner.current as int, scanner.line as int).tokens
                    == scan(src, 0, 1).tokens,
                error_views(errors@) + scan(src, scanner.current as int, scanner.line as int).errors
                    == scan(src, 0, 1).errors,
                scan(src, scanner.current as int, scanner.line as int).line == scan(src, 0, 1).line,
            decreases src.len() - scanner.current,
        {
            scanner.start = scanner.current;
            let ghost pos = scanner.current as int;
            let ghost line = scanner.line as int;
            let ghost before_tokens = scanner.tokens@;
            let ghost before_errors = errors@;
            proof {
                step_advances(src, pos, line);
            }
            if let Err(e) = scanner.scan_token() {
                errors.push(e);
            }
            proof {
                assert forall|i: int| 0 <= i < scanner.tokens@.len() implies canonical(
                    #[trigger] scanner.tokens@[i],
                ) by {
                    if i < before_tokens.len() && scanner.tokens@.len() > before_tokens.len() {
                        assert(scanner.tokens@.drop_last()[i] == before_tokens[i]);
                    }
                }
                let s = step(src, pos, line);
                let rest = scan(src, s.next, s.line);
                assert(token_views(scanner.tokens@) + rest.tokens =~= token_views(before_tokens)
                    + scan(src, pos, line).tokens);
                assert(error_views(errors@) + rest.errors =~= error_views(before_errors) + scan(
                    src,
                    pos,
                    line,
                ).errors);
            }
        }
        proof {
            assert(token_views(scanner.tokens@) + Seq::<TokenView>::empty() =~= token_views(
                scanner.tokens@,
            ));
            assert(error_views(errors@) + Seq::<ScannerErrorView>::empty() =~= error_views(
                errors@,
            ));
        }
        let ghost scanned = scanner.tokens@;
        let end = text_of(&scanner.source, 0, 0);
        assert(src.subrange(0, 0) =~= Seq::<char>::empty());
        scanner.tokens.push(
            Token { ty: TokenType::EoF, lexeme: end, literal: None, line: scanner.line },
        );
        assert(token_views(scanner.tokens@) =~= token_views(scanned).push(
            end_token(scanner.line as int),
        ));
        proof {
            assert forall|i: int| 0 <= i < scanner.tokens@.len() implies canonical(
                #[trigger] scanner.tokens@[i],
            ) by {
                if i < scanned.len() {
                    assert(scanner.tokens@[i] == scanned[i]);
                }
            }
            if errors@.len() == 0 {
                assert(scanner.tokens@ =~= lexed(src)) by {
                    assert(token_views(scanner.tokens@) == tokens_of(src));
                    assert forall|i: int| 0 <= i < scanner.tokens@.len() implies scanner.tokens@[i]
                        == lexed(src)[i] by {
                        assert(canonical(scanner.tokens@[i]));
                        assert(token_views(scanner.tokens@)[i] == scanner.tokens@[i]@);
                    }
                }
            }
        }

        if errors.len() == 0 {
            Ok(scanner.tokens)
        } else {
            Err(ScannerErrors(errors))
        }
    }

    fn is_at_end(&self) -> (r: bool)
        ensures
            r == (self.current >= self.source.len()),
    {
        self.current >= self.source.len()
    }

    /// One step of the scan, from `self.current`.
    fn scan_token(&mut self) -> (r: Result<(), ScannerError>)
        requires
            old(self).current < old(self).source.len(),
            old(self).source.len() < usize::MAX,
            old(self).start == old(self).current,
            1 <= old(self).line <= old(self).current + 1,
        ensures
            final(self).source == old(self).source,
            final(self).current == step(
                old(self).source@,
                old(self).current as int,
                old(self).line as int,
            ).next,
            final(self).line == step(
                old(self).source@,
                old(self).current as int,
                old(self).line as int,
            ).line,
            final(self).line <= final(self).current + 1,
            match step(old(self).source@, old(self).current as int, old(self).line as int).lexed {
                Lexed::Token(t) => r.is_ok() && final(self).tokens@.len() == old(self).tokens@.len()
                    + 1 && final(self).tokens@.last()@ == t && final(self).tokens@.drop_last()
                    == old(self).tokens@ && canonical(final(self).tokens@.last()),
                Lexed::Nothing => r.is_ok() && final(self).tokens == old(self).tokens,
                Lexed::Error(e) => r.is_err() && r.unwrap_err()@ == e && final(self).tokens == old(
                    self,
                ).tokens,
            },
    {
        proof {
            step_advances(self.source@, self.current as int, self.line as int);
        }
        let c = self.source[self.current];
        self.current += 1;
        match c {
            '(' => self.add_token(TokenType::LeftParen),
            ')' => self.add_token(TokenType::RightParen),
            '{' => self.add_token(TokenType::LeftBrace),
            '}' => self.add_token(TokenType::RightBrace),
            ',' => self.add_token(TokenType::Comma),
            '.' => self.add_token(TokenType::Dot),
            '-' => self.add_token(TokenType::Minus),
            '+' => self.add_token(TokenType::Plus),
            ';' => self.add_token(TokenType::Semicolon),
            '*' => self.add_token(TokenType::Star),
            '!' => {
                if self.follow('=') {
                    self.add_token(TokenType::BangEqual)
                } else {
                    self.add_token(TokenType::Bang)
                }
            },
            '=' => {
                if self.follow('=') {
                    self.add_token(TokenType::EqualEqual)
                } else {
                    self.add_token(TokenType::Equal)
                }
            },
            '<' => {
                if self.follow('=') {
                    self.add_token(TokenType::LessEqual)
                } else {
                    self.add_token(TokenType::Less)
                }
            },
            '>' => {
                if self.follow('=') {
                    self.add_token(TokenType::GreaterEqual)
                } else {
                    self.add_token(TokenType::Greater)
                }
            },
            '/' => {
                if self.follow('/') {
                    self.skip(Run::Comment);
                } else {
                    self.add_token(TokenType::Slash)
                }
            },
            '\n' => {
                self.line += 1;
            },
            ' ' | '\r' | '\t' => {},
            '"' => {
                return self.string();
            },
            _ => {
                if digit_of(c).is_some() {
                    return self.number();
                } else if starts_name(c) {
                    self.identifier();
                } else {
                    return Err(ScannerError::Character(c));
                }
            },
        }
        Ok(())
    }

    /// Moves over the run of `run` characters at `self.current`.
    fn skip(&mut self, run: Run)
        requires
            old(self).current <= old(self).source.len(),
        ensures
            final(self).current == run_end(old(self).source@, old(self).current as int, run),
            old(self).current <= final(self).current <= final(self).source.len(),
            final(self).source == old(self).source,
            final(self).tokens == old(self).tokens,
            final(self).start == old(self).start,
            final(self).line == old(self).line,
    {
        proof {
            run_end_bounds(self.source@, self.current as int, run);
        }
        while self.current < self.source.len() && run.has(self.source[self.current])
            invariant
                old(self).current <= self.current <= self.source.len(),
                self.source == old(self).source,
                self.tokens == old(self).tokens,
                self.start == old(self).start,
                self.line == old(self).line,
                run_end(self.source@, self.current as int, run) == run_end(
                    old(self).source@,
                    old(self).current as int,
                    run,
                ),
            decreases self.source.len() - self.current,
        {
            self.current += 1;
        }
    }

    /// Moves over `c` if it is the next character.
    fn follow(&mut self, c: char) -> (r: bool)
        requires
            old(self).current <= old(self).source.len(),
        ensures
            r == (old(self).current < old(self).source.len() && old(self).source@[old(
                self,
            ).current as int] == c),
            final(self).current == if r {
                old(self).current + 1
            } else {
                old(self).current as int
            },
            final(self).source == old(self).source,
            final(self).tokens == old(self).tokens,
            final(self).start == old(self).start,
            final(self).line == old(self).line,
    {
        if self.current < self.source.len() && self.source[self.current] == c {
            self.current += 1;
            true
        } else {
            false
        }
    }

    /// Adds the token for `source[start..current]`.
    fn add_token(&mut self, token_type: TokenType)
        requires
            old(self).start <= old(self).current <= old(self).source.len(),
        ensures
            final(self).tokens@.len() == old(self).tokens@.len() + 1,
            final(self).tokens@.drop_last() == old(self).tokens@,
            canonical(final(self).tokens@.last()),
            final(self).tokens@.last()@ == (TokenView {
                ty: token_type,
                lexeme: old(self).source@.subrange(
                    old(self).start as int,
                    old(self).current as int,
                ),
                literal: None,
                line: old(self).line,
            }),
            final(self).source == old(self).source,
            final(self).current == old(self).current,
            final(self).start == old(self).start,
            final(self).line == old(self).line,
    {
        let text = text_of(&self.source, self.start, self.current);
        self.tokens.push(Token { ty: token_type, lexeme: text, literal: None, line: self.line });
        assert(self.tokens@.drop_last() =~= old(self).tokens@);
    }

    fn string(&mut self) -> (r: Result<(), ScannerError>)
        requires
            old(self).start + 1 == old(self).current,
            old(self).current <= old(self).source.len(),
            old(self).source.len() < usize::MAX,
            1 <= old(self).line <= old(self).start + 1,
        ensures
            final(self).source == old(self).source,
            final(self).current == string_step(
                old(self).source@,
                old(self).start as int,
                old(self).line as int,
            ).next,
            final(self).line == string_step(
                old(self).source@,
                old(self).start as int,
                old(self).line as int,
            ).line,
            match string_step(old(self).source@, old(self).start as int, old(self).line as int).lexed {
                Lexed::Token(t) => r.is_ok() && final(self).tokens@.len() == old(self).tokens@.len()
                    + 1 && final(self).tokens@.last()@ == t && final(self).tokens@.drop_last()
                    == old(self).tokens@ && canonical(final(self).tokens@.last()),
                Lexed::Nothing => false,
                Lexed::Error(e) => r.is_err() && r.unwrap_err()@ == e && final(self).tokens == old(
                    self,
                ).tokens,
            },
    {
        let ghost src = self.source@;
        let ghost from = self.current as int;
        proof {
            run_end_bounds(src, from, Run::Quoted);
        }
        while self.current < self.source.len() && self.source[self.current] != '"'
            invariant
                self.source@ == src,
                self.source == old(self).source,
                self.source.len() < usize::MAX,
                self.tokens == old(self).tokens,
                self.start == old(self).start,
                from <= self.current <= src.len(),
                run_end(src, self.current as int, Run::Quoted) == run_end(src, from, Run::Quoted),
                old(self).line as int + line_feeds(src, from, run_end(src, from, Run::Quoted))
                    == self.line + line_feeds(
                    src,
                    self.current as int,
                    run_end(src, from, Run::Quoted),
                ),
                self.line <= self.current + 1,
                1 <= self.line,
            decreases src.len() - self.current,
        {
            proof {
                run_end_bounds(src, self.current as int + 1, Run::Quoted);
            }
            if self.source[self.current] == '\n' {
                self.line += 1;
            }
            self.current += 1;
        }

        if self.current >= self.source.len() {
            return Err(ScannerError::String);
        }
        self.current += 1;
        let content = text_of(&self.source, self.start + 1, self.current - 1);
        let text = text_of(&self.source, self.start, self.current);
        self.tokens.push(
            Token {
                ty: TokenType::String,
                lexeme: text,
                literal: Some(Literal::String(content)),
                line: self.line,
            },
        );
        assert(self.tokens@.drop_last() =~= old(self).tokens@);
        Ok(())
    }

    fn number(&mut self) -> (r: Result<(), ScannerError>)
        requires
            old(self).start + 1 == old(self).current,
            old(self).current <= old(self).source.len(),
            is_digit(old(self).source@[old(self).start as int]),
        ensures
            final(self).source == old(self).source,
            final(self).line == old(self).line,
            final(self).current == number_step(
                old(self).source@,
                old(self).start as int,
                old(self).line as int,
            ).next,
            match number_step(old(self).source@, old(self).start as int, old(self).line as int).lexed {
                Lexed::Token(t) => r.is_ok() && final(self).tokens@.len() == old(self).tokens@.len()
                    + 1 && final(self).tokens@.last()@ == t && final(self).tokens@.drop_last()
                    == old(self).tokens@ && canonical(final(self).tokens@.last()),
                Lexed::Nothing => false,
                Lexed::Error(e) => r.is_err() && r.unwrap_err()@ == e && final(self).tokens == old(
                    self,
                ).tokens,
            },
    {
        assert(Run::Digits.holds(self.source@[self.start as int]));
        self.skip(Run::Digits);
        if self.current < self.source.len() - 1 && self.source[self.current] == '.' && digit_of(
            self.source[self.current + 1],
        ).is_some() {
            self.current += 1;
            self.skip(Run::Digits);
        }
        let text = text_of(&self.source, self.start, self.current);
        match Number::parse(text.as_str()) {
            Some(number) => {
                self.tokens.push(
                    Token {
                        ty: TokenType::Number,
                        lexeme: text,
                        literal: Some(Literal::Number(number)),
                        line: self.line,
                    },
                );
                assert(self.tokens@.drop_last() =~= old(self).tokens@);
                Ok(())
            },
            None => Err(ScannerError::Number(text)),
        }
    }

    fn identifier(&mut self)
        requires
            old(self).start + 1 == old(self).current,
            old(self).current <= old(self).source.len(),
        ensures
            final(self).source == old(self).source,
            final(self).line == old(self).line,
            final(self).current == identifier_step(
                old(self).source@,
                old(self).start as int,
                old(self).line as int,
            ).next,
            final(self).tokens@.len() == old(self).tokens@.len() + 1,
            final(self).tokens@.drop_last() == old(self).tokens@,
            canonical(final(self).tokens@.last()),
            Lexed::Token(final(self).tokens@.last()@) == identifier_step(
                old(self).source@,
                old(self).start as int,
                old(self).line as int,
            ).lexed,
    {
        self.skip(Run::Name);
        let text = text_of(&self.source, self.start, self.current);
        let ty = match TokenType::from_keyword(text.as_str()) {
            Some(keyword) => keyword,
            None => TokenType::Identifier,
        };
        self.tokens.push(Token { ty, lexeme: text, literal: None, line: self.line });
        assert(self.tokens@.drop_last() =~= old(self).tokens@);
    }
}

} // verus!
