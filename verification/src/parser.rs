//! The parser: from tokens to one expression tree, by recursive descent.
//! It never gives up on an error: it notes the error and goes on.

use vstd::prelude::*;
use crate::ast::{Binary, Expr, ExprView, Grouping, Literal, Unary};
use crate::report::{format_line_message, join_lines, joined, line_message, texts};
use crate::syntax::{
    binary, binary_rest, expression, is_literal, is_operator, is_prefix, left_from, operand,
    primary, terminated, unary, Level, Parsed,
};
use crate::token::{token_views, Token, TokenView, Type, Value};

verus! {

/// A parser over one run of tokens. It reads them front to back, once.
pub struct Parser {
    tokens: Vec<Token>,
    cursor: usize,
    errors: Vec<String>,
}

/// What a `Parser` stands for in contracts: its tokens, the position it
/// reads next, and the errors noted so far.
pub struct ParserView {
    pub tokens: Seq<TokenView>,
    pub cursor: nat,
    pub errors: Seq<Seq<char>>,
}

impl View for Parser {
    type V = ParserView;

    closed spec fn view(&self) -> ParserView {
        ParserView {
            tokens: token_views(self.tokens@),
            cursor: self.cursor as nat,
            errors: texts(self.errors@),
        }
    }
}

/// Whether `after` is what `before` becomes by parsing `p`: the same
/// tokens, the cursor behind the tokens taken, and the errors met noted
/// behind those noted before.
pub open spec fn follows(after: ParserView, before: ParserView, p: Parsed) -> bool {
    &&& after.tokens == before.tokens
    &&& after.cursor == before.cursor + p.used
    &&& after.errors =~= before.errors + p.errors
}

/// Whether a parser that started an expression of `level` at `before`, has
/// read `left` of it and now stands at `now`, will end where the whole
/// expression ends by reading what follows `left`.
spec fn pending(now: ParserView, before: ParserView, level: Level, left: ExprView) -> bool {
    let whole = binary(before.tokens, before.cursor as int, level);
    let rest = binary_rest(now.tokens, now.cursor as int, level, left);
    &&& now.tokens == before.tokens
    &&& before.cursor <= now.cursor
    &&& whole.expr == rest.expr
    &&& before.cursor + whole.used == now.cursor + rest.used
    &&& before.errors + whole.errors =~= now.errors + rest.errors
}

/// Whether `result` is what parsing hands back for the tree `expr` with
/// `errors` noted: the tree if there are none, and otherwise all of them,
/// joined in their order, a message to a line.
pub open spec fn reports(result: Result<Expr, String>, expr: ExprView, errors: Seq<Seq<char>>) -> bool {
    if errors.len() == 0 {
        result is Ok && result->Ok_0@ == expr
    } else {
        result is Err && result->Err_0@ == joined(errors)
    }
}

/// Once the first operand is read, what follows it is pending.
proof fn lemma_first(before: ParserView, now: ParserView, level: Level)
    requires
        follows(now, before, operand(before.tokens, before.cursor as int, level)),
    ensures
        pending(now, before, level, operand(before.tokens, before.cursor as int, level).expr),
{
}

/// Reading an operator and its operand leaves what follows them pending.
proof fn lemma_step(
    before: ParserView,
    at: ParserView,
    now: ParserView,
    level: Level,
    left: ExprView,
)
    requires
        pending(at, before, level, left),
        at.cursor < at.tokens.len(),
        is_operator(level, at.tokens[at.cursor as int].typ),
        follows(
            now,
            ParserView { tokens: at.tokens, cursor: at.cursor + 1, errors: at.errors },
            operand(at.tokens, (at.cursor + 1) as int, level),
        ),
    ensures
        pending(
            now,
            before,
            level,
            ExprView::Binary {
                left: Box::new(left),
                op: at.tokens[at.cursor as int],
                right: Box::new(operand(at.tokens, (at.cursor + 1) as int, level).expr),
            },
        ),
{
}

/// Where no operator follows, the expression is complete.
proof fn lemma_last(before: ParserView, now: ParserView, level: Level, left: ExprView)
    requires
        pending(now, before, level, left),
        !(now.cursor < now.tokens.len() && is_operator(level, now.tokens[now.cursor as int].typ)),
    ensures
        follows(now, before, binary(before.tokens, before.cursor as int, level)),
        binary(before.tokens, before.cursor as int, level).expr == left,
{
}

impl Parser {
    /// What parsing asks of a parser: its tokens end with the end of input,
    /// and the cursor stands at one of them.
    pub open spec fn well_formed(&self) -> bool {
        terminated(self@.tokens) && self@.cursor < self@.tokens.len()
    }

    /// A parser at the first of `tokens`, with no error noted.
    pub fn new(tokens: Vec<Token>) -> (p: Self)
        ensures
            p@ == (ParserView { tokens: token_views(tokens@), cursor: 0, errors: Seq::empty() }),
    {
        let p = Parser { tokens, cursor: 0, errors: Vec::with_capacity(5) };
        assert(texts(p.errors@) =~= Seq::empty());
        p
    }

    /// Parses one expression from the cursor on. The tree is returned if no
    /// error is noted, those of earlier calls counted; otherwise all errors
    /// noted, joined in their order, a message to a line.
    pub fn parse(&mut self) -> (result: Result<Expr, String>)
        requires
            old(self).well_formed(),
        ensures
            final(self).well_formed(),
            follows(
                final(self)@,
                old(self)@,
                expression(old(self)@.tokens, old(self)@.cursor as int),
            ),
            reports(
                result,
                expression(old(self)@.tokens, old(self)@.cursor as int).expr,
                final(self)@.errors,
            ),
    {
        let e = self.expression();

        if self.errors.len() == 0 {
            Ok(e)
        } else {
            Err(join_lines(&self.errors))
        }
    }

    /// An expression: one of the loosest level.
    fn expression(&mut self) -> (e: Expr)
        requires
            old(self).well_formed(),
        ensures
            final(self).well_formed(),
            follows(
                final(self)@,
                old(self)@,
                expression(old(self)@.tokens, old(self)@.cursor as int),
            ),
            e@ == expression(old(self)@.tokens, old(self)@.cursor as int).expr,
        decreases left_from(old(self)@.tokens, old(self)@.cursor as int), 13nat,
    {
        self.equality()
    }

    /// Comparisons with `==` and `!=` between them.
    fn equality(&mut self) -> (e: Expr)
        requires
            old(self).well_formed(),
        ensures
            final(self).well_formed(),
            follows(
                final(self)@,
                old(self)@,
                binary(old(self)@.tokens, old(self)@.cursor as int, Level::Equality),
            ),
            e@ == binary(old(self)@.tokens, old(self)@.cursor as int, Level::Equality).expr,
        decreases left_from(old(self)@.tokens, old(self)@.cursor as int), 12nat,
    {
        let mut e = self.comparison();
        proof {
            lemma_first(old(self)@, self@, Level::Equality);
        }
        loop
            invariant
                self.well_formed(),
                pending(self@, old(self)@, Level::Equality, e@),
            ensures
                self.well_formed(),
                follows(
                    self@,
                    old(self)@,
                    binary(old(self)@.tokens, old(self)@.cursor as int, Level::Equality),
                ),
                e@ == binary(old(self)@.tokens, old(self)@.cursor as int, Level::Equality).expr,
            decreases left_from(self@.tokens, self@.cursor as int),
        {
            let ghost at = self@;
            if !self.match_token_types_equality() {
                proof {
                    lemma_last(old(self)@, self@, Level::Equality, e@);
                }
                break ;
            }
            let op = self.previous();
            let right = self.comparison();
            proof {
                lemma_step(old(self)@, at, self@, Level::Equality, e@);
            }
            e = Expr::Binary(Box::new(Binary { left: e, op, right }));
        }
        e
    }

    /// Terms with `>`, `>=`, `<` and `<=` between them.
    fn comparison(&mut self) -> (e: Expr)
        requires
            old(self).well_formed(),
        ensures
            final(self).well_formed(),
            follows(
                final(self)@,
                old(self)@,
                binary(old(self)@.tokens, old(self)@.cursor as int, Level::Comparison),
            ),
            e@ == binary(old(self)@.tokens, old(self)@.cursor as int, Level::Comparison).expr,
        decreases left_from(old(self)@.tokens, old(self)@.cursor as int), 9nat,
    {
        let mut e = self.term();
        proof {
            lemma_first(old(self)@, self@, Level::Comparison);
        }
        loop
            invariant
                self.well_formed(),
                pending(self@, old(self)@, Level::Comparison, e@),
            ensures
                self.well_formed(),
                follows(
                    self@,
                    old(self)@,
                    binary(old(self)@.tokens, old(self)@.cursor as int, Level::Comparison),
                ),
                e@ == binary(old(self)@.tokens, old(self)@.cursor as int, Level::Comparison).expr,
            decreases left_from(self@.tokens, self@.cursor as int),
        {
            let ghost at = self@;
            if !self.match_token_types_comparison() {
                proof {
                    lemma_last(old(self)@, self@, Level::Comparison, e@);
                }
                break ;
            }
            let op = self.previous();
            let right = self.term();
            proof {
                lemma_step(old(self)@, at, self@, Level::Comparison, e@);
            }
            e = Expr::Binary(Box::new(Binary { left: e, op, right }));
        }
        e
    }

    /// Factors with `-` and `+` between them.
    fn term(&mut self) -> (e: Expr)
        requires
            old(self).well_formed(),
        ensures
            final(self).well_formed(),
            follows(
                final(self)@,
                old(self)@,
                binary(old(self)@.tokens, old(self)@.cursor as int, Level::Term),
            ),
            e@ == binary(old(self)@.tokens, old(self)@.cursor as int, Level::Term).expr,
        decreases left_from(old(self)@.tokens, old(self)@.cursor as int), 6nat,
    {
        let mut e = self.factor();
        proof {
            lemma_first(old(self)@, self@, Level::Term);
        }
        loop
            invariant
                self.well_formed(),
                pending(self@, old(self)@, Level::Term, e@),
            ensures
                self.well_formed(),
                follows(
                    self@,
                    old(self)@,
                    binary(old(self)@.tokens, old(self)@.cursor as int, Level::Term),
                ),
                e@ == binary(old(self)@.tokens, old(self)@.cursor as int, Level::Term).expr,
            decreases left_from(self@.tokens, self@.cursor as int),
        {
            let ghost at = self@;
            if !self.match_token_types_term() {
                proof {
                    lemma_last(old(self)@, self@, Level::Term, e@);
                }
                break ;
            }
            let op = self.previous();
            let right = self.factor();
            proof {
                lemma_step(old(self)@, at, self@, Level::Term, e@);
            }
            e = Expr::Binary(Box::new(Binary { left: e, op, right }));
        }
        e
    }

    /// Prefix expressions with `/` and `*` between them.
    fn factor(&mut self) -> (e: Expr)
        requires
            old(self).well_formed(),
        ensures
            final(self).well_formed(),
            follows(
                final(self)@,
                old(self)@,
                binary(old(self)@.tokens, old(self)@.cursor as int, Level::Factor),
            ),
            e@ == binary(old(self)@.tokens, old(self)@.cursor as int, Level::Factor).expr,
        decreases left_from(old(self)@.tokens, old(self)@.cursor as int), 3nat,
    {
        let mut e = self.unary();
        proof {
            lemma_first(old(self)@, self@, Level::Factor);
        }
        loop
            invariant
                self.well_formed(),
                pending(self@, old(self)@, Level::Factor, e@),
            ensures
                self.well_formed(),
                follows(
                    self@,
                    old(self)@,
                    binary(old(self)@.tokens, old(self)@.cursor as int, Level::Factor),
                ),
                e@ == binary(old(self)@.tokens, old(self)@.cursor as int, Level::Factor).expr,
            decreases left_from(self@.tokens, self@.cursor as int),
        {
            let ghost at = self@;
            if !self.match_token_types_factor() {
                proof {
                    lemma_last(old(self)@, self@, Level::Factor, e@);
                }
                break ;
            }
            let op = self.previous();
            let right = self.unary();
            proof {
                lemma_step(old(self)@, at, self@, Level::Factor, e@);
            }
            e = Expr::Binary(Box::new(Binary { left: e, op, right }));
        }
        e
    }

    /// A `!` or `-` with its operand, or a primary.
    fn unary(&mut self) -> (e: Expr)
        requires
            old(self).well_formed(),
        ensures
            final(self).well_formed(),
            follows(final(self)@, old(self)@, unary(old(self)@.tokens, old(self)@.cursor as int)),
            e@ == unary(old(self)@.tokens, old(self)@.cursor as int).expr,
        decreases left_from(old(self)@.tokens, old(self)@.cursor as int), 1nat,
    {
        if self.match_token_types_unary() {
            let op = self.previous();
            let right = self.unary();
            Expr::Unary(Box::new(Unary { op, right }))
        } else {
            self.primary()
        }
    }

    /// A literal or an expression in parentheses; failing both, the empty
    /// expression, for which no token is taken.
    fn primary(&mut self) -> (e: Expr)
        requires
            old(self).well_formed(),
        ensures
            final(self).well_formed(),
            follows(final(self)@, old(self)@, primary(old(self)@.tokens, old(self)@.cursor as int)),
            e@ == primary(old(self)@.tokens, old(self)@.cursor as int).expr,
        decreases left_from(old(self)@.tokens, old(self)@.cursor as int), 0nat,
    {
        if self.match_token_types_literal() {
            Expr::Literal(Box::new(Literal { value: self.previous_value() }))
        } else if self.match_token_types_left_paren() {
            let exp = self.expression();
            self.consume(Type::RightParen, "expecting ')'");
            Expr::Grouping(Box::new(Grouping { exp }))
        } else {
            Expr::Empty
        }
    }

    /// The kind of the token at the cursor.
    spec fn current(&self) -> Type {
        self.tokens@[self.cursor as int].typ
    }

    /// Whether `self` is `before` with the cursor moved on by one token
    /// where `taken` holds, and `before` itself where it does not.
    spec fn stepped(&self, before: &Parser, taken: bool) -> bool {
        &&& self.tokens == before.tokens
        &&& self.errors == before.errors
        &&& self.cursor == before.cursor + if taken { 1int } else { 0int }
    }

    /// Takes the token at the cursor if it is an operator of equality.
    fn match_token_types_equality(&mut self) -> (m: bool)
        requires
            old(self).well_formed(),
        ensures
            final(self).well_formed(),
            final(self).stepped(old(self), m),
            m == is_operator(Level::Equality, old(self).current()),
    {
        let t = self.tokens[self.cursor].typ;
        let m = t == Type::EqualEqual || t == Type::BangEqual;
        if m {
            self.advance();
        }
        m
    }

    /// Takes the token at the cursor if it is an operator of comparison.
    fn match_token_types_comparison(&mut self) -> (m: bool)
        requires
            old(self).well_formed(),
        ensures
            final(self).well_formed(),
            final(self).stepped(old(self), m),
            m == is_operator(Level::Comparison, old(self).current()),
    {
        let t = self.tokens[self.cursor].typ;
        let m = t == Type::Greater || t == Type::GreaterEqual || t == Type::Less || t
            == Type::LessEqual;
        if m {
            self.advance();
        }
        m
    }

    /// Takes the token at the cursor if it is `-` or `+`.
    fn match_token_types_term(&mut self) -> (m: bool)
        requires
            old(self).well_formed(),
        ensures
            final(self).well_formed(),
            final(self).stepped(old(self), m),
            m == is_operator(Level::Term, old(self).current()),
    {
        let t = self.tokens[self.cursor].typ;
        let m = t == Type::Minus || t == Type::Plus;
        if m {
            self.advance();
        }
        m
    }

    /// Takes the token at the cursor if it is `/` or `*`.
    fn match_token_types_factor(&mut self) -> (m: bool)
        requires
            old(self).well_formed(),
        ensures
            final(self).well_formed(),
            final(self).stepped(old(self), m),
            m == is_operator(Level::Factor, old(self).current()),
    {
        let t = self.tokens[self.cursor].typ;
        let m = t == Type::Slash || t == Type::Star;
        if m {
            self.advance();
        }
        m
    }

    /// Takes the token at the cursor if it is a prefix operator.
    fn match_token_types_unary(&mut self) -> (m: bool)
        requires
            old(self).well_formed(),
        ensures
            final(self).well_formed(),
            final(self).stepped(old(self), m),
            m == is_prefix(old(self).current()),
    {
        let t = self.tokens[self.cursor].typ;
        let m = t == Type::Bang || t == Type::Minus;
        if m {
            self.advance();
        }
        m
    }

    /// Takes the token at the cursor if it is a literal.
    fn match_token_types_literal(&mut self) -> (m: bool)
        requires
            old(self).well_formed(),
        ensures
            final(self).well_formed(),
            final(self).stepped(old(self), m),
            m == is_literal(old(self).current()),
    {
        let t = self.tokens[self.cursor].typ;
        let m = t == Type::True || t == Type::False || t == Type::Nil || t == Type::String || t
            == Type::Number;
        if m {
            self.advance();
        }
        m
    }

    /// Takes the token at the cursor if it is an opening parenthesis.
    fn match_token_types_left_paren(&mut self) -> (m: bool)
        requires
            old(self).well_formed(),
        ensures
            final(self).well_formed(),
            final(self).stepped(old(self), m),
            m == (old(self).current() == Type::LeftParen),
    {
        let t = self.tokens[self.cursor].typ;
        let m = t == Type::LeftParen;
        if m {
            self.advance();
        }
        m
    }

    /// Takes the token at the cursor if it is of kind `token_type`, and
    /// notes an error about its line if it is not.
    fn consume(&mut self, token_type: Type, msg: &str)
        requires
            old(self).well_formed(),
            token_type != Type::EndOfFile,
        ensures
            final(self).well_formed(),
            final(self).tokens == old(self).tokens,
            old(self).current() == token_type ==> final(self).stepped(old(self), true),
            old(self).current() != token_type ==> final(self).cursor == old(self).cursor
                && final(self)@.errors == old(self)@.errors.push(
                line_message(old(self)@.tokens[old(self).cursor as int].line, msg@),
            ),
    {
        let current_token = &self.tokens[self.cursor];

        if current_token.typ == token_type {
            self.advance();
        } else {
            let text = format_line_message(current_token.line, msg);
            self.errors.push(text);
            assert(texts(self.errors@) =~= texts(old(self).errors@).push(text@));
        }
    }

    /// Steps over the token at the cursor, unless it is the end of input,
    /// and gives the token before the cursor.
    fn advance(&mut self) -> (tok: Token)
        requires
            old(self).well_formed(),
            old(self).cursor > 0 || old(self).current() != Type::EndOfFile,
        ensures
            final(self).well_formed(),
            final(self).stepped(old(self), old(self).current() != Type::EndOfFile),
            tok == final(self).tokens@[final(self).cursor - 1],
    {
        if !self.is_at_end() {
            assert(self.cursor < self.tokens.len());
            self.cursor += 1;
        }
        self.previous()
    }

    /// Whether the cursor stands at an end-of-input token.
    fn is_at_end(&self) -> (b: bool)
        requires
            self.well_formed(),
        ensures
            b == (self.current() == Type::EndOfFile),
    {
        self.tokens[self.cursor].typ == Type::EndOfFile
    }

    /// The token before the cursor.
    fn previous(&self) -> (tok: Token)
        requires
            0 < self.cursor <= self.tokens@.len(),
        ensures
            tok == self.tokens@[self.cursor - 1],
    {
        self.tokens[self.cursor - 1].clone()
    }

    /// The payload of the token before the cursor.
    fn previous_value(&self) -> (value: Value)
        requires
            0 < self.cursor <= self.tokens@.len(),
        ensures
            value == self.tokens@[self.cursor - 1].literal,
    {
        self.tokens[self.cursor - 1].literal.clone()
    }
}

} // verus!
