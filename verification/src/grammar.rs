//! What the scanner computes, as functions on the source text.
//!
//! A position is an index into the text. From a position the scanner passes
//! over blanks (white space and line comments), reads one token, and goes
//! on behind it until it has read the end-of-input token.

use vstd::prelude::*;
use crate::chars::{in_class, lemma_run_end, run_end, unicode_alphabetic, unicode_whitespace, CharClass};
use crate::token::{TokenView, Type, ValueView};

verus! {

/// Whether a line comment starts at `pos`: two slashes in a row.
pub open spec fn comment_at(src: Seq<char>, pos: int) -> bool {
    0 <= pos && pos + 1 < src.len() && src[pos] == '/' && src[pos + 1] == '/'
}

/// Where the next token starts, seen from `pos`: behind all white space and
/// all line comments. A comment runs up to the next line feed or carriage
/// return, which is left standing, or to the end of the text.
pub open spec fn token_start(src: Seq<char>, pos: int) -> int
    decreases src.len() - pos,
{
    if pos < 0 || pos >= src.len() {
        pos
    } else if unicode_whitespace(src[pos]) {
        token_start(src, pos + 1)
    } else if comment_at(src, pos) {
        proof {
            lemma_run_end(src, pos + 2, CharClass::CommentBody);
        }
        token_start(src, run_end(src, pos + 2, CharClass::CommentBody))
    } else {
        pos
    }
}

/// The kind of the token that is the single character `c`, if there is one.
pub open spec fn punctuation(c: char) -> Option<Type> {
    if c == '(' {
        Some(Type::LeftParen)
    } else if c == ')' {
        Some(Type::RightParen)
    } else if c == '{' {
        Some(Type::LeftBrace)
    } else if c == '}' {
        Some(Type::RightBrace)
    } else if c == ',' {
        Some(Type::Comma)
    } else if c == '.' {
        Some(Type::Dot)
    } else if c == ';' {
        Some(Type::Semicolon)
    } else if c == '+' {
        Some(Type::Plus)
    } else if c == '-' {
        Some(Type::Minus)
    } else if c == '*' {
        Some(Type::Star)
    } else if c == '/' {
        Some(Type::Slash)
    } else {
        None
    }
}

/// The kind of the operator that starts with `c`, which an equals sign
/// follows or not, if `c` starts one.
pub open spec fn operator(c: char, equals_follows: bool) -> Option<Type> {
    if c == '!' {
        Some(if equals_follows { Type::BangEqual } else { Type::Bang })
    } else if c == '=' {
        Some(if equals_follows { Type::EqualEqual } else { Type::Equal })
    } else if c == '<' {
        Some(if equals_follows { Type::LessEqual } else { Type::Less })
    } else if c == '>' {
        Some(if equals_follows { Type::GreaterEqual } else { Type::Greater })
    } else {
        None
    }
}

/// The kind of a word: that of the reserved word it spells, or `Identifier`.
pub open spec fn word_kind(text: Seq<char>) -> Type {
    if text == "and"@ {
        Type::And
    } else if text == "class"@ {
        Type::Class
    } else if text == "else"@ {
        Type::Else
    } else if text == "fun"@ {
        Type::Fun
    } else if text == "for"@ {
        Type::For
    } else if text == "if"@ {
        Type::If
    } else if text == "nil"@ {
        Type::Nil
    } else if text == "or"@ {
        Type::Or
    } else if text == "print"@ {
        Type::Print
    } else if text == "return"@ {
        Type::Return
    } else if text == "super"@ {
        Type::Super
    } else if text == "this"@ {
        Type::This
    } else if text == "true"@ {
        Type::True
    } else if text == "false"@ {
        Type::False
    } else if text == "var"@ {
        Type::Var
    } else if text == "while"@ {
        Type::While
    } else {
        Type::Identifier
    }
}

/// The payload of a word of kind `typ`: the truth value for `true` and
/// `false`, the text itself for every other word.
pub open spec fn word_payload(typ: Type, text: Seq<char>) -> ValueView {
    match typ {
        Type::True => ValueView::Bool(true),
        Type::False => ValueView::Bool(false),
        _ => ValueView::Str(text),
    }
}

/// Whether `text` is a decimal numeral: one or more of the digits `0` to
/// `9`, then at most one point with any number of digits behind it.
pub open spec fn is_numeral(text: Seq<char>) -> bool {
    let whole = run_end(text, 0, CharClass::Digit);
    whole >= 1 && (whole == text.len() || (text[whole] == '.' && run_end(
        text,
        whole + 1,
        CharClass::Digit,
    ) == text.len()))
}

/// Where the number that starts at `pos` ends: behind a run of numerals
/// and, if a point follows it, that point and one more run of numerals.
pub open spec fn number_end(src: Seq<char>, pos: int) -> int {
    let whole = run_end(src, pos + 1, CharClass::Numeric);
    if whole < src.len() && src[whole] == '.' {
        run_end(src, whole + 1, CharClass::Numeric)
    } else {
        whole
    }
}

/// The payload of a number token with this text: the numeral, or nothing
/// where the text is no decimal numeral.
pub open spec fn number_payload(text: Seq<char>) -> ValueView {
    if is_numeral(text) {
        ValueView::Num(text)
    } else {
        ValueView::Absent
    }
}

/// A token as read from the text: its kind, its payload, and the position
/// behind it.
pub struct Lexed {
    pub typ: Type,
    pub literal: ValueView,
    pub end: int,
}

/// The token that starts at `pos`, a position that `token_start` gave.
///
/// - At the end of the text: the end of input, without a payload.
/// - A punctuation mark or an operator: its kind, with its own text as
///   payload.
/// - A double quote: a string, which runs to the next double quote or, if
///   there is none, to the end of the text. Its payload is what stands
///   between the quotes, as it stands.
/// - One of the digits `0` to `9`: a number, whose payload is its text as
///   far as that is a decimal numeral.
/// - A letter: a word, which goes on with letters, numerals and hyphens.
/// - Any other character: the end of input, with that character as payload.
pub open spec fn token_at(src: Seq<char>, pos: int) -> Lexed {
    if pos < 0 || pos >= src.len() {
        Lexed { typ: Type::EndOfFile, literal: ValueView::Absent, end: pos }
    } else {
        let c = src[pos];
        let equals_follows = pos + 1 < src.len() && src[pos + 1] == '=';
        if punctuation(c) is Some {
            Lexed {
                typ: punctuation(c)->0,
                literal: ValueView::Str(src.subrange(pos, pos + 1)),
                end: pos + 1,
            }
        } else if operator(c, equals_follows) is Some {
            let end = if equals_follows { pos + 2 } else { pos + 1 };
            Lexed {
                typ: operator(c, equals_follows)->0,
                literal: ValueView::Str(src.subrange(pos, end)),
                end,
            }
        } else if c == '"' {
            let close = run_end(src, pos + 1, CharClass::StringBody);
            Lexed {
                typ: Type::String,
                literal: ValueView::Str(src.subrange(pos + 1, close)),
                end: if close < src.len() { close + 1 } else { close },
            }
        } else if in_class(CharClass::Digit, c) {
            let end = number_end(src, pos);
            Lexed { typ: Type::Number, literal: number_payload(src.subrange(pos, end)), end }
        } else if unicode_alphabetic(c) {
            let end = run_end(src, pos + 1, CharClass::Word);
            let text = src.subrange(pos, end);
            Lexed { typ: word_kind(text), literal: word_payload(word_kind(text), text), end }
        } else {
            Lexed {
                typ: Type::EndOfFile,
                literal: ValueView::Str(src.subrange(pos, pos + 1)),
                end: pos + 1,
            }
        }
    }
}

/// How many line feeds stand before `pos`.
pub open spec fn newlines(src: Seq<char>, pos: int) -> nat
    decreases pos,
{
    if pos <= 0 || pos > src.len() {
        0
    } else {
        newlines(src, pos - 1) + if src[pos - 1] == '\n' { 1nat } else { 0nat }
    }
}

/// There are no more line feeds before a position than characters.
pub proof fn lemma_newlines_bound(src: Seq<char>, pos: int)
    requires
        0 <= pos <= src.len(),
    ensures
        newlines(src, pos) <= pos,
    decreases pos,
{
    if pos > 0 {
        lemma_newlines_bound(src, pos - 1);
    }
}

/// The position behind the next token, seen from `pos`.
pub open spec fn next_position(src: Seq<char>, pos: int) -> int {
    token_at(src, token_start(src, pos)).end
}

/// The next token, seen from `pos`. Its line is that of the last character
/// read for it, counted from 1.
pub open spec fn next_token(src: Seq<char>, pos: int) -> TokenView {
    let t = token_at(src, token_start(src, pos));
    TokenView { typ: t.typ, lexeme: None, literal: t.literal, line: 1 + newlines(src, t.end) }
}

/// The tokens from `pos` on, up to and with the first end-of-input token.
pub open spec fn scan(src: Seq<char>, pos: int) -> Seq<TokenView>
    decreases src.len() - pos,
{
    let t = next_token(src, pos);
    if t.typ == Type::EndOfFile {
        seq![t]
    } else {
        proof {
            lemma_next_position(src, pos);
        }
        seq![t] + scan(src, next_position(src, pos))
    }
}

/// The position behind the end-of-input token that ends `scan(src, pos)`.
pub open spec fn scan_end(src: Seq<char>, pos: int) -> int
    decreases src.len() - pos,
{
    if next_token(src, pos).typ == Type::EndOfFile {
        next_position(src, pos)
    } else {
        proof {
            lemma_next_position(src, pos);
        }
        scan_end(src, next_position(src, pos))
    }
}

/// A token starts at or behind the position it is sought from and within
/// the text, at a character that is neither white space nor the start of a
/// comment.
pub proof fn lemma_token_start(src: Seq<char>, pos: int)
    requires
        0 <= pos <= src.len(),
    ensures
        pos <= token_start(src, pos) <= src.len(),
        token_start(src, pos) < src.len() ==> !unicode_whitespace(src[token_start(src, pos)])
            && !comment_at(src, token_start(src, pos)),
        token_start(src, token_start(src, pos)) == token_start(src, pos),
    decreases src.len() - pos,
{
    if pos >= src.len() {
    } else if unicode_whitespace(src[pos]) {
        lemma_token_start(src, pos + 1);
    } else if comment_at(src, pos) {
        lemma_run_end(src, pos + 2, CharClass::CommentBody);
        lemma_token_start(src, run_end(src, pos + 2, CharClass::CommentBody));
    }
}

/// Reading a token never goes back and never leaves the text, and every
/// token but the end of input takes at least one character.
pub proof fn lemma_next_position(src: Seq<char>, pos: int)
    requires
        0 <= pos <= src.len(),
    ensures
        pos <= token_start(src, pos) <= next_position(src, pos) <= src.len(),
        next_token(src, pos).typ != Type::EndOfFile ==> token_start(src, pos) < next_position(
            src,
            pos,
        ),
{
    lemma_token_start(src, pos);
    let p = token_start(src, pos);
    if p < src.len() {
        lemma_run_end(src, p + 1, CharClass::StringBody);
        lemma_run_end(src, p + 1, CharClass::Word);
        lemma_run_end(src, p + 1, CharClass::Numeric);
        let whole = run_end(src, p + 1, CharClass::Numeric);
        if whole < src.len() {
            lemma_run_end(src, whole + 1, CharClass::Numeric);
        }
    }
}

} // verus!
