//! What the parser computes, as functions on the tokens.
//!
//! The grammar is a ladder of left-associative binary levels over prefix
//! operators and primaries:
//!
//! ```text
//! expression := equality
//! equality   := comparison (('==' | '!=') comparison)*
//! comparison := term (('>' | '>=' | '<' | '<=') term)*
//! term       := factor (('-' | '+') factor)*
//! factor     := unary (('/' | '*') unary)*
//! unary      := ('!' | '-') unary | primary
//! primary    := 'true' | 'false' | 'nil' | string | number | '(' expression ')'
//! ```
//!
//! `!=` belongs to the equality level alone, and `=` to none: a single
//! equals sign is no operator of an expression.

use vstd::prelude::*;
use crate::ast::ExprView;
use crate::report::line_message;
use crate::token::{TokenView, Type};

verus! {

/// The binary levels of the grammar, from the loosest to the tightest.
#[derive(Debug, PartialEq, Eq, Clone, Copy, Structural)]
pub enum Level {
    Equality,
    Comparison,
    Term,
    Factor,
}

/// Whether a token of kind `typ` is an operator of `level`.
pub open spec fn is_operator(level: Level, typ: Type) -> bool {
    match level {
        Level::Equality => typ == Type::EqualEqual || typ == Type::BangEqual,
        Level::Comparison => typ == Type::Greater || typ == Type::GreaterEqual || typ == Type::Less
            || typ == Type::LessEqual,
        Level::Term => typ == Type::Minus || typ == Type::Plus,
        Level::Factor => typ == Type::Slash || typ == Type::Star,
    }
}

/// Whether a token of kind `typ` is a prefix operator.
pub open spec fn is_prefix(typ: Type) -> bool {
    typ == Type::Bang || typ == Type::Minus
}

/// Whether a token of kind `typ` is a literal.
pub open spec fn is_literal(typ: Type) -> bool {
    typ == Type::True || typ == Type::False || typ == Type::Nil || typ == Type::String || typ
        == Type::Number
}

/// How tightly a level binds: the tightest is 0.
pub open spec fn rank(level: Level) -> nat {
    match level {
        Level::Equality => 3,
        Level::Comparison => 2,
        Level::Term => 1,
        Level::Factor => 0,
    }
}

/// The outcome of parsing from some position: the expression, how many
/// tokens were taken for it, and the errors met on the way, in their order.
pub struct Parsed {
    pub expr: ExprView,
    pub used: nat,
    pub errors: Seq<Seq<char>>,
}

/// The message for a closing parenthesis that does not stand where it is due.
pub open spec fn missing_paren() -> Seq<char> {
    "expecting ')'"@
}

/// How many tokens stand at and behind `cursor`.
pub open spec fn left_from(tokens: Seq<TokenView>, cursor: int) -> nat {
    if cursor <= tokens.len() {
        (tokens.len() - cursor) as nat
    } else {
        0
    }
}

/// An expression at `cursor`.
pub open spec fn expression(tokens: Seq<TokenView>, cursor: int) -> Parsed
    decreases left_from(tokens, cursor), 13nat,
{
    binary(tokens, cursor, Level::Equality)
}

/// An expression of `level` at `cursor`: an operand, then operators of the
/// level with an operand each, for as long as one follows.
pub open spec fn binary(tokens: Seq<TokenView>, cursor: int, level: Level) -> Parsed
    decreases left_from(tokens, cursor), 3 * rank(level) + 3,
{
    let first = operand(tokens, cursor, level);
    let rest = binary_rest(tokens, cursor + first.used, level, first.expr);
    Parsed { expr: rest.expr, used: first.used + rest.used, errors: first.errors + rest.errors }
}

/// An operand of `level` at `cursor`: an expression of the next tighter
/// level.
pub open spec fn operand(tokens: Seq<TokenView>, cursor: int, level: Level) -> Parsed
    decreases left_from(tokens, cursor), 3 * rank(level) + 2,
{
    match level {
        Level::Equality => binary(tokens, cursor, Level::Comparison),
        Level::Comparison => binary(tokens, cursor, Level::Term),
        Level::Term => binary(tokens, cursor, Level::Factor),
        Level::Factor => unary(tokens, cursor),
    }
}

/// What follows the operand `left` of `level`, which ends before `cursor`.
/// Each operator takes what stands to its left as its left operand, so
/// operators of one level group from the left.
pub open spec fn binary_rest(
    tokens: Seq<TokenView>,
    cursor: int,
    level: Level,
    left: ExprView,
) -> Parsed
    decreases left_from(tokens, cursor), 3 * rank(level) + 2,
{
    if 0 <= cursor < tokens.len() && is_operator(level, tokens[cursor].typ) {
        let right = operand(tokens, cursor + 1, level);
        let folded = ExprView::Binary {
            left: Box::new(left),
            op: tokens[cursor],
            right: Box::new(right.expr),
        };
        let rest = binary_rest(tokens, cursor + 1 + right.used, level, folded);
        Parsed {
            expr: rest.expr,
            used: 1 + right.used + rest.used,
            errors: right.errors + rest.errors,
        }
    } else {
        Parsed { expr: left, used: 0, errors: Seq::empty() }
    }
}

/// A prefix operator with its operand, or a primary.
pub open spec fn unary(tokens: Seq<TokenView>, cursor: int) -> Parsed
    decreases left_from(tokens, cursor), 1nat,
{
    if 0 <= cursor < tokens.len() && is_prefix(tokens[cursor].typ) {
        let right = unary(tokens, cursor + 1);
        Parsed {
            expr: ExprView::Unary { op: tokens[cursor], right: Box::new(right.expr) },
            used: 1 + right.used,
            errors: right.errors,
        }
    } else {
        primary(tokens, cursor)
    }
}

/// A literal, or an expression in parentheses. Where the closing
/// parenthesis is missing, the group stands all the same, nothing is taken
/// in its place, and an error names the line of the token found there.
/// Anything else is no expression, and nothing is taken.
pub open spec fn primary(tokens: Seq<TokenView>, cursor: int) -> Parsed
    decreases left_from(tokens, cursor), 0nat,
{
    if cursor < 0 || cursor >= tokens.len() {
        Parsed { expr: ExprView::Empty, used: 0, errors: Seq::empty() }
    } else if is_literal(tokens[cursor].typ) {
        Parsed {
            expr: ExprView::Literal { value: tokens[cursor].literal },
            used: 1,
            errors: Seq::empty(),
        }
    } else if tokens[cursor].typ == Type::LeftParen {
        let inner = expression(tokens, cursor + 1);
        let close = cursor + 1 + inner.used;
        let expr = ExprView::Grouping { exp: Box::new(inner.expr) };
        if 0 <= close < tokens.len() && tokens[close].typ == Type::RightParen {
            Parsed { expr, used: 2 + inner.used, errors: inner.errors }
        } else {
            Parsed {
                expr,
                used: 1 + inner.used,
                errors: inner.errors.push(line_message(tokens[close].line, missing_paren())),
            }
        }
    } else {
        Parsed { expr: ExprView::Empty, used: 0, errors: Seq::empty() }
    }
}

/// What the parser asks of its tokens: there is at least one, and the last
/// is the end of input.
pub open spec fn terminated(tokens: Seq<TokenView>) -> bool {
    tokens.len() > 0 && tokens.last().typ == Type::EndOfFile
}

} // verus!
