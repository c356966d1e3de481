//! The scanner: from source text to tokens.

use vstd::prelude::*;
use vstd::slice::slice_subrange;
use crate::chars::{
    chars_of, class_holds, find_run_end, run_end, spells, string_from_chars, unicode_whitespace,
    CharClass,
};
use crate::grammar::{
    comment_at, is_numeral, lemma_newlines_bound, lemma_next_position, lemma_token_start, newlines,
    next_position, next_token, scan, scan_end, token_start, word_kind,
};
use crate::report::{format_line_message, line_message, texts};
use crate::token::{token_views, Token, TokenView, Type, Value};

verus! {

/// A scanner over one source text. It reads the text front to back, once.
pub struct Scanner {
    source: Vec<char>,
    cursor: usize,
    start: usize,
    end: usize,
    line: usize,
}

/// What a `Scanner` stands for in contracts: its text, the position it
/// reads next, and the line that position is on.
pub struct ScannerView {
    pub source: Seq<char>,
    pub cursor: nat,
    pub line: nat,
}

impl View for Scanner {
    type V = ScannerView;

    closed spec fn view(&self) -> ScannerView {
        ScannerView {
            source: self.source@,
            cursor: self.cursor as nat,
            line: self.line as nat,
        }
    }
}

/// Whether `chars` is a decimal numeral.
pub fn numeral(chars: &[char]) -> (b: bool)
    ensures
        b == is_numeral(chars@),
{
    let whole: usize = find_run_end(chars, 0, CharClass::Digit);
    if whole == 0 {
        false
    } else if whole == chars.len() {
        true
    } else {
        chars[whole] == '.' && find_run_end(chars, whole + 1, CharClass::Digit) == chars.len()
    }
}

/// The kind of the word that `chars` spells.
pub fn word_type(chars: &[char]) -> (typ: Type)
    ensures
        typ == word_kind(chars@),
{
    if spells(chars, "and") {
        Type::And
    } else if spells(chars, "class") {
        Type::Class
    } else if spells(chars, "else") {
        Type::Else
    } else if spells(chars, "fun") {
        Type::Fun
    } else if spells(chars, "for") {
        Type::For
    } else if spells(chars, "if") {
        Type::If
    } else if spells(chars, "nil") {
        Type::Nil
    } else if spells(chars, "or") {
        Type::Or
    } else if spells(chars, "print") {
        Type::Print
    } else if spells(chars, "return") {
        Type::Return
    } else if spells(chars, "super") {
        Type::Super
    } else if spells(chars, "this") {
        Type::This
    } else if spells(chars, "true") {
        Type::True
    } else if spells(chars, "false") {
        Type::False
    } else if spells(chars, "var") {
        Type::Var
    } else if spells(chars, "while") {
        Type::While
    } else {
        Type::Identifier
    }
}

/// Whether a token is a number whose text is no decimal numeral: it has
/// the kind of a number and no numeral to go with it.
pub open spec fn malformed(t: TokenView) -> bool {
    t.typ == Type::Number && !(t.literal is Num)
}

/// The message about a malformed number.
pub open spec fn malformed_number() -> Seq<char> {
    "malformed number"@
}

/// One message for each malformed number among `tokens`, in their order,
/// each about the line of its token.
pub open spec fn lexical_errors_of(tokens: Seq<TokenView>) -> Seq<Seq<char>>
    decreases tokens.len(),
{
    if tokens.len() == 0 {
        Seq::empty()
    } else if malformed(tokens.last()) {
        lexical_errors_of(tokens.drop_last()).push(
            line_message(tokens.last().line, malformed_number()),
        )
    } else {
        lexical_errors_of(tokens.drop_last())
    }
}

/// Lists the lexical errors among `tokens`: one message for each number
/// whose text is no decimal numeral.
pub fn lexical_errors(tokens: &Vec<Token>) -> (errors: Vec<String>)
    ensures
        texts(errors@) == lexical_errors_of(token_views(tokens@)),
{
    let mut errors: Vec<String> = Vec::new();
    let mut i: usize = 0;
    assert(token_views(tokens@).take(0) =~= Seq::empty());
    assert(texts(errors@) =~= Seq::empty());
    while i < tokens.len()
        invariant
            0 <= i <= tokens@.len(),
            texts(errors@) == lexical_errors_of(token_views(tokens@).take(i as int)),
        decreases tokens@.len() - i,
    {
        let ghost before = errors@;
        let ghost upto = token_views(tokens@).take(i + 1);
        assert(upto.drop_last() =~= token_views(tokens@).take(i as int));
        assert(upto.last() == tokens@[i as int]@);
        let token = &tokens[i];
        let bad = match (token.typ, &token.literal) {
            (Type::Number, Value::Num(_)) => false,
            (Type::Number, _) => true,
            _ => false,
        };
        if bad {
            let text = format_line_message(token.line, "malformed number");
            errors.push(text);
            assert(texts(errors@) =~= texts(before).push(text@));
        }
        i += 1;
    }
    assert(token_views(tokens@).take(i as int) =~= token_views(tokens@));
    errors
}

impl Scanner {
    /// What holds of a scanner between calls: the cursor lies within the
    /// text, and the line is one more than the line feeds before the
    /// cursor.
    pub closed spec fn well_formed(&self) -> bool {
        &&& self.end == self.source@.len()
        &&& self.end < usize::MAX
        &&& self.start <= self.cursor <= self.end
        &&& self.line == 1 + newlines(self.source@, self.cursor as int)
    }

    /// A scanner at the start of `source`, on line 1. The text must be
    /// short enough for its lines to be counted in a `usize`.
    pub fn new(source: &String) -> (s: Self)
        requires
            source@.len() < usize::MAX,
        ensures
            s.well_formed(),
            s@ == (ScannerView { source: source@, cursor: 0, line: 1 }),
    {
        let chars = chars_of(source.as_str());
        let end: usize = chars.len();
        Scanner { source: chars, cursor: 0, start: 0, end, line: 1 }
    }

    /// Reads tokens up to and with the first end-of-input token, which is
    /// the last token returned and the only one of its kind. One more token is
    /// read behind it and dropped, so the scanner rests behind that one.
    pub fn parse(&mut self) -> (tokens: Vec<Token>)
        requires
            old(self).well_formed(),
        ensures
            final(self).well_formed(),
            final(self)@.source == old(self)@.source,
            token_views(tokens@) == scan(old(self)@.source, old(self)@.cursor as int),
            final(self)@.cursor == next_position(
                old(self)@.source,
                scan_end(old(self)@.source, old(self)@.cursor as int),
            ),
            final(self)@.line == 1 + newlines(old(self)@.source, final(self)@.cursor as int),
            tokens@.len() >= 1,
            tokens@.last().typ == Type::EndOfFile,
            forall|i: int| 0 <= i < tokens@.len() - 1 ==> (#[trigger] tokens@[i]).typ != Type::EndOfFile,
    {
        let ghost src = self.source@;
        let ghost first = self.cursor as int;
        let mut result: Vec<Token> = Vec::with_capacity(self.end / 2);
        let ghost mut pos = first;
        let mut tok = self.next();
        let mut has_next = true;

        while has_next
            invariant
                self.well_formed(),
                self.source@ == src,
                0 <= pos <= src.len(),
                has_next ==> tok@ == next_token(src, pos),
                has_next ==> self.cursor == next_position(src, pos),
                has_next ==> token_views(result@) + scan(src, pos) == scan(src, first),
                has_next ==> scan_end(src, pos) == scan_end(src, first),
                has_next ==> forall|i: int|
                    0 <= i < result@.len() ==> (#[trigger] result@[i]).typ != Type::EndOfFile,
                !has_next ==> token_views(result@) == scan(src, first),
                !has_next ==> self.cursor == next_position(src, scan_end(src, first)),
                !has_next ==> result@.len() >= 1 && result@.last().typ == Type::EndOfFile,
                !has_next ==> forall|i: int|
                    0 <= i < result@.len() - 1 ==> (#[trigger] result@[i]).typ != Type::EndOfFile,
            decreases src.len() - pos + (if has_next { 1int } else { 0int }),
        {
            has_next = match tok.typ {
                Type::EndOfFile => false,
                _ => true,
            };
            proof {
                lemma_next_position(src, pos);
                assert(token_views(result@.push(tok)) =~= token_views(result@).push(tok@));
                if has_next {
                    assert(token_views(result@).push(tok@) + scan(src, next_position(src, pos))
                        =~= token_views(result@) + scan(src, pos));
                    pos = next_position(src, pos);
                } else {
                    assert(token_views(result@).push(tok@) =~= token_views(result@) + scan(
                        src,
                        pos,
                    ));
                }
            }
            result.push(tok);
            tok = self.next();
        }
        result
    }

    /// Reads the next token: passes over white space and comments, then
    /// reads one token and rests behind it.
    fn next(&mut self) -> (tok: Token)
        requires
            old(self).well_formed(),
        ensures
            final(self).well_formed(),
            final(self).source == old(self).source,
            tok@ == next_token(old(self).source@, old(self).cursor as int),
            final(self).cursor == next_position(old(self).source@, old(self).cursor as int),
        decreases old(self).end - old(self).cursor,
    {
        let ghost src = self.source@;
        let ghost from = self.cursor as int;
        self.skip_whitespace();
        self.start = self.cursor;
        let ghost pos = self.cursor as int;
        proof {
            lemma_token_start(src, pos);
        }
        let current = self.advance();

        if let Some(c) = current {
            assert(c == src[pos]);
            if c == '/' {
                if let Some(_) = self.advance_if_match('/') {
                    assert(comment_at(src, pos));
                    self.advance_while(CharClass::CommentBody);
                    assert(token_start(src, pos) == token_start(src, self.cursor as int));
                    self.next()
                } else {
                    assert(token_start(src, pos) == pos);
                    self.token(Type::Slash)
                }
            } else {
                assert(token_start(src, pos) == pos);
                match c {
                    '(' => self.token(Type::LeftParen),
                    ')' => self.token(Type::RightParen),
                    '{' => self.token(Type::LeftBrace),
                    '}' => self.token(Type::RightBrace),
                    ',' => self.token(Type::Comma),
                    '.' => self.token(Type::Dot),
                    ';' => self.token(Type::Semicolon),
                    '+' => self.token(Type::Plus),
                    '-' => self.token(Type::Minus),
                    '*' => self.token(Type::Star),
                    '!' => {
                        if let Some(_) = self.advance_if_match('=') {
                            self.token(Type::BangEqual)
                        } else {
                            self.token(Type::Bang)
                        }
                    },
                    '=' => {
                        if let Some(_) = self.advance_if_match('=') {
                            self.token(Type::EqualEqual)
                        } else {
                            self.token(Type::Equal)
                        }
                    },
                    '<' => {
                        if let Some(_) = self.advance_if_match('=') {
                            self.token(Type::LessEqual)
                        } else {
                            self.token(Type::Less)
                        }
                    },
                    '>' => {
                        if let Some(_) = self.advance_if_match('=') {
                            self.token(Type::GreaterEqual)
                        } else {
                            self.token(Type::Greater)
                        }
                    },
                    '"' => {
                        self.start = self.cursor;
                        self.advance_while(CharClass::StringBody);
                        let literal = Value::Str(self.get_current_literal());
                        self.advance();
                        Token { typ: Type::String, lexeme: None, literal, line: self.line }
                    },
                    _ => {
                        if class_holds(CharClass::Digit, c) {
                            self.advance_while(CharClass::Numeric);
                            if let Some(_) = self.advance_if_match('.') {
                                self.advance_while(CharClass::Numeric);
                            }
                            let text = slice_subrange(
                                self.source.as_slice(),
                                self.start,
                                self.cursor,
                            );
                            let literal = if numeral(text) {
                                Value::Num(string_from_chars(text))
                            } else {
                                Value::Absent
                            };
                            Token { typ: Type::Number, lexeme: None, literal, line: self.line }
                        } else if c.is_alphabetic() {
                            self.advance_while(CharClass::Word);
                            let text = slice_subrange(
                                self.source.as_slice(),
                                self.start,
                                self.cursor,
                            );
                            let current_type = word_type(text);
                            let current_value = match current_type {
                                Type::True => Value::Bool(true),
                                Type::False => Value::Bool(false),
                                _ => Value::Str(string_from_chars(text)),
                            };
                            Token {
                                typ: current_type,
                                lexeme: None,
                                literal: current_value,
                                line: self.line,
                            }
                        } else {
                            self.token(Type::EndOfFile)
                        }
                    },
                }
            }
        } else {
            Token { typ: Type::EndOfFile, lexeme: None, literal: Value::Absent, line: self.line }
        }
    }

    /// A token of kind `typ` whose payload is the text read since the
    /// token's start.
    fn token(&self, typ: Type) -> (tok: Token)
        requires
            self.well_formed(),
        ensures
            tok.typ == typ,
            tok.lexeme is None,
            tok.literal@ == crate::token::ValueView::Str(
                self.source@.subrange(self.start as int, self.cursor as int),
            ),
            tok.line == self.line,
    {
        Token {
            typ,
            lexeme: None,
            literal: Value::Str(self.get_current_literal()),
            line: self.line,
        }
    }

    /// Whether the whole text has been read.
    fn is_at_end(&self) -> (b: bool)
        ensures
            b == (self.cursor >= self.end),
    {
        self.cursor >= self.end
    }

    /// Takes the character at the cursor, if there is one, and counts the
    /// line where it is a line feed.
    fn advance(&mut self) -> (current: Option<char>)
        requires
            old(self).well_formed(),
        ensures
            final(self).well_formed(),
            final(self).source == old(self).source,
            final(self).start == old(self).start,
            old(self).cursor < old(self).end ==> current == Some(
                old(self).source@[old(self).cursor as int],
            ) && final(self).cursor == old(self).cursor + 1,
            old(self).cursor >= old(self).end ==> current is None && final(self).cursor == old(
                self,
            ).cursor,
    {
        if self.is_at_end() {
            None
        } else {
            let current = self.source[self.cursor];

            if current == '\n' {
                proof {
                    lemma_newlines_bound(self.source@, self.cursor as int);
                }
                self.line += 1;
            }
            self.cursor += 1;
            Some(current)
        }
    }

    /// Takes the character at the cursor if it is `c`.
    fn advance_if_match(&mut self, c: char) -> (taken: Option<char>)
        requires
            old(self).well_formed(),
            c != '\n',
        ensures
            final(self).well_formed(),
            final(self).source == old(self).source,
            final(self).start == old(self).start,
            (old(self).cursor < old(self).end && old(self).source@[old(self).cursor as int] == c)
                ==> taken == Some(c) && final(self).cursor == old(self).cursor + 1,
            !(old(self).cursor < old(self).end && old(self).source@[old(self).cursor as int] == c)
                ==> taken is None && final(self).cursor == old(self).cursor,
    {
        if self.is_at_end() {
            None
        } else {
            let current = self.source[self.cursor];

            if current == c {
                self.cursor += 1;
                Some(current)
            } else {
                None
            }
        }
    }

    /// Passes over white space, counting the lines.
    fn skip_whitespace(&mut self)
        requires
            old(self).well_formed(),
        ensures
            final(self).well_formed(),
            final(self).source == old(self).source,
            old(self).cursor <= final(self).cursor,
            token_start(final(self).source@, final(self).cursor as int) == token_start(
                old(self).source@,
                old(self).cursor as int,
            ),
            final(self).cursor < final(self).end ==> !unicode_whitespace(
                final(self).source@[final(self).cursor as int],
            ),
    {
        while !self.is_at_end() && self.source[self.cursor].is_whitespace()
            invariant
                self.well_formed(),
                self.source == old(self).source,
                old(self).cursor <= self.cursor,
                token_start(self.source@, self.cursor as int) == token_start(
                    old(self).source@,
                    old(self).cursor as int,
                ),
            decreases self.end - self.cursor,
        {
            if self.source[self.cursor] == '\n' {
                proof {
                    lemma_newlines_bound(self.source@, self.cursor as int);
                }
                self.line += 1;
            }
            self.cursor += 1;
        }
    }

    /// The character at the cursor, if there is one.
    fn peek(&self) -> (c: Option<char>)
        requires
            self.well_formed(),
        ensures
            c == if self.cursor < self.end {
                Some(self.source@[self.cursor as int])
            } else {
                None
            },
    {
        if self.is_at_end() {
            None
        } else {
            Some(self.source[self.cursor])
        }
    }

    /// Takes characters for as long as they belong to `class`.
    fn advance_while(&mut self, class: CharClass)
        requires
            old(self).well_formed(),
        ensures
            final(self).well_formed(),
            final(self).source == old(self).source,
            final(self).start == old(self).start,
            old(self).cursor <= final(self).cursor,
            final(self).cursor == run_end(old(self).source@, old(self).cursor as int, class),
    {
        loop
            invariant
                self.well_formed(),
                self.source == old(self).source,
                self.start == old(self).start,
                old(self).cursor <= self.cursor,
                run_end(self.source@, self.cursor as int, class) == run_end(
                    old(self).source@,
                    old(self).cursor as int,
                    class,
                ),
            ensures
                self.cursor == run_end(old(self).source@, old(self).cursor as int, class),
            decreases self.end - self.cursor,
        {
            match self.peek() {
                Some(skip) => {
                    if class_holds(class, skip) {
                        self.advance();
                    } else {
                        break ;
                    }
                },
                None => {
                    break ;
                },
            }
        }
    }

    /// The text read since the token's start.
    fn get_current_literal(&self) -> (text: String)
        requires
            self.well_formed(),
        ensures
            text@ == self.source@.subrange(self.start as int, self.cursor as int),
    {
        string_from_chars(slice_subrange(self.source.as_slice(), self.start, self.cursor))
    }
}

} // verus!
