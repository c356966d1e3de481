//! The vocabulary shared by the scanner and the parser: token kinds, literal
//! payloads and tokens, each with the mathematical value that contracts speak
//! of.

use vstd::prelude::*;

verus! {

/// The kind of a token.
#[derive(Debug, PartialEq, Eq, Clone, Copy, Structural)]
pub enum Type {
    // Single character tokens
    LeftParen,
    RightParen,
    LeftBrace,
    RightBrace,
    Comma,
    Dot,
    Minus,
    Plus,
    Semicolon,
    Slash,
    Star,
    // One or two character tokens
    Bang,
    BangEqual,
    Equal,
    EqualEqual,
    Greater,
    GreaterEqual,
    Less,
    LessEqual,
    // Literals
    Identifier,
    String,
    Number,
    // Keywords
    And,
    Class,
    Else,
    Fun,
    For,
    If,
    Nil,
    Or,
    Print,
    Return,
    Super,
    This,
    True,
    False,
    Var,
    While,
    EndOfFile,
}

/// The payload of a token.
///
/// A number is held as the text of its decimal numeral, digit for digit, so
/// that nothing is rounded before a caller decides how to read it.
#[derive(Debug, PartialEq)]
pub enum Value {
    Str(String),
    Bool(bool),
    Num(String),
    Absent,
}

/// What a `Value` stands for in contracts.
pub enum ValueView {
    Str(Seq<char>),
    Bool(bool),
    Num(Seq<char>),
    Absent,
}

impl View for Value {
    type V = ValueView;

    open spec fn view(&self) -> ValueView {
        match self {
            Value::Str(s) => ValueView::Str(s@),
            Value::Bool(b) => ValueView::Bool(*b),
            Value::Num(s) => ValueView::Num(s@),
            Value::Absent => ValueView::Absent,
        }
    }
}

impl Clone for Value {
    fn clone(&self) -> (r: Self)
        ensures
            r == *self,
    {
        match self {
            Value::Str(s) => Value::Str(s.clone()),
            Value::Bool(b) => Value::Bool(*b),
            Value::Num(s) => Value::Num(s.clone()),
            Value::Absent => Value::Absent,
        }
    }
}

/// One lexical unit: its kind, its raw text where that was kept, its payload
/// and the line it was read on, counted from 1.
#[derive(Debug, PartialEq)]
pub struct Token {
    pub typ: Type,
    pub lexeme: Option<String>,
    pub literal: Value,
    pub line: usize,
}

/// What a `Token` stands for in contracts.
pub struct TokenView {
    pub typ: Type,
    pub lexeme: Option<Seq<char>>,
    pub literal: ValueView,
    pub line: nat,
}

impl View for Token {
    type V = TokenView;

    open spec fn view(&self) -> TokenView {
        TokenView {
            typ: self.typ,
            lexeme: match self.lexeme {
                Some(s) => Some(s@),
                None => None,
            },
            literal: self.literal@,
            line: self.line as nat,
        }
    }
}

impl Clone for Token {
    fn clone(&self) -> (r: Self)
        ensures
            r == *self,
    {
        let lexeme = match &self.lexeme {
            Some(s) => Some(s.clone()),
            None => None,
        };
        Token { typ: self.typ, lexeme, literal: self.literal.clone(), line: self.line }
    }
}

/// The views of a run of tokens, one for one.
pub open spec fn token_views(tokens: Seq<Token>) -> Seq<TokenView> {
    tokens.map_values(|t: Token| t@)
}

} // verus!
