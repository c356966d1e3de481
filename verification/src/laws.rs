//! What holds of every scan and every parse.

use vstd::prelude::*;
use crate::ast::{Expr, ExprView};
use crate::chars::unicode_whitespace;
use crate::grammar::{
    is_numeral, lemma_next_position, newlines, next_position, next_token, scan, token_start,
};
use crate::parser::reports;
use crate::syntax::{
    binary, binary_rest, expression, is_literal, is_operator, is_prefix, left_from, operand,
    primary, rank, terminated, unary, Level,
};
use crate::token::{token_views, Token, TokenView, Type, ValueView};

verus! {

/// A scan from any position within the text is not empty, its last token
/// is the end of input, and no token before the last is.
pub proof fn lemma_scan_ends_once(src: Seq<char>, pos: int)
    requires
        0 <= pos <= src.len(),
    ensures
        scan(src, pos).len() >= 1,
        scan(src, pos).last().typ == Type::EndOfFile,
        forall|i: int|
            0 <= i < scan(src, pos).len() - 1 ==> (#[trigger] scan(src, pos)[i]).typ
                != Type::EndOfFile,
    decreases src.len() - pos,
{
    lemma_next_position(src, pos);
    if next_token(src, pos).typ != Type::EndOfFile {
        lemma_scan_ends_once(src, next_position(src, pos));
    }
}

/// Where only white space stands from `pos` on, and so in the empty text,
/// the scan is the end-of-input token alone, without a payload, on the
/// last line of the text.
pub proof fn lemma_scan_of_blank(src: Seq<char>, pos: int)
    requires
        0 <= pos <= src.len(),
        forall|i: int| pos <= i < src.len() ==> unicode_whitespace(#[trigger] src[i]),
    ensures
        scan(src, pos) == seq![
            (TokenView {
                typ: Type::EndOfFile,
                lexeme: None,
                literal: ValueView::Absent,
                line: 1 + newlines(src, src.len() as int),
            }),
        ],
{
    lemma_blank_to_end(src, pos);
}

proof fn lemma_blank_to_end(src: Seq<char>, pos: int)
    requires
        0 <= pos <= src.len(),
        forall|i: int| pos <= i < src.len() ==> unicode_whitespace(#[trigger] src[i]),
    ensures
        token_start(src, pos) == src.len(),
    decreases src.len() - pos,
{
    if pos < src.len() {
        lemma_blank_to_end(src, pos + 1);
    }
}

/// The line of every token of a scan lies between the line of the position
/// that the scan starts from and the last line of the text, and from one
/// token to the next the line never goes back.
pub proof fn lemma_lines_in_order(src: Seq<char>, pos: int)
    requires
        0 <= pos <= src.len(),
    ensures
        forall|i: int|
            0 <= i < scan(src, pos).len() ==> 1 + newlines(src, pos) <= (#[trigger] scan(
                src,
                pos,
            )[i]).line <= 1 + newlines(src, src.len() as int),
        forall|i: int, j: int|
            0 <= i <= j < scan(src, pos).len() ==> (#[trigger] scan(src, pos)[i]).line <= (
            #[trigger] scan(src, pos)[j]).line,
    decreases src.len() - pos,
{
    lemma_next_position(src, pos);
    let next = next_position(src, pos);
    lemma_newlines_grow(src, pos, next);
    lemma_newlines_grow(src, next, src.len() as int);
    if next_token(src, pos).typ != Type::EndOfFile {
        lemma_lines_in_order(src, next);
        let rest = scan(src, next);
        assert forall|i: int, j: int| 0 <= i <= j < scan(src, pos).len() implies (#[trigger] scan(
            src,
            pos,
        )[i]).line <= (#[trigger] scan(src, pos)[j]).line by {
            if i > 0 {
                assert(scan(src, pos)[i] == rest[i - 1]);
            }
            if j > 0 {
                assert(scan(src, pos)[j] == rest[j - 1]);
            }
        }
    }
}

/// Every numeral among the tokens of a scan is a decimal numeral and the
/// payload of a number.
pub proof fn lemma_numbers_are_numerals(src: Seq<char>, pos: int)
    requires
        0 <= pos <= src.len(),
    ensures
        forall|i: int|
            0 <= i < scan(src, pos).len() ==> match (#[trigger] scan(src, pos)[i]).literal {
                ValueView::Num(text) => scan(src, pos)[i].typ == Type::Number && is_numeral(text),
                _ => true,
            },
    decreases src.len() - pos,
{
    lemma_next_position(src, pos);
    if next_token(src, pos).typ != Type::EndOfFile {
        lemma_numbers_are_numerals(src, next_position(src, pos));
    }
}

/// There are no fewer line feeds before a later position than before an
/// earlier one.
pub proof fn lemma_newlines_grow(src: Seq<char>, early: int, late: int)
    requires
        0 <= early <= late <= src.len(),
    ensures
        newlines(src, early) <= newlines(src, late),
    decreases late,
{
    if early < late {
        lemma_newlines_grow(src, early, late - 1);
    }
}

/// The tokens of a scan are what the parser asks for: they end with the end
/// of input.
pub proof fn lemma_scan_is_terminated(src: Seq<char>, pos: int)
    requires
        0 <= pos <= src.len(),
    ensures
        terminated(scan(src, pos)),
{
    lemma_scan_ends_once(src, pos);
}

/// The parser never steps over the end of input: an expression that
/// starts at a token of a terminated run ends before or at the last token.
pub proof fn lemma_expression_within(tokens: Seq<TokenView>, cursor: int)
    requires
        terminated(tokens),
        0 <= cursor < tokens.len(),
    ensures
        cursor + expression(tokens, cursor).used < tokens.len(),
    decreases left_from(tokens, cursor), 13nat,
{
    lemma_binary_within(tokens, cursor, Level::Equality);
}

proof fn lemma_binary_within(tokens: Seq<TokenView>, cursor: int, level: Level)
    requires
        terminated(tokens),
        0 <= cursor < tokens.len(),
    ensures
        cursor + binary(tokens, cursor, level).used < tokens.len(),
    decreases left_from(tokens, cursor), 3 * rank(level) + 3,
{
    lemma_operand_within(tokens, cursor, level);
    let first = operand(tokens, cursor, level);
    lemma_rest_within(tokens, cursor + first.used, level, first.expr);
}

proof fn lemma_operand_within(tokens: Seq<TokenView>, cursor: int, level: Level)
    requires
        terminated(tokens),
        0 <= cursor < tokens.len(),
    ensures
        cursor + operand(tokens, cursor, level).used < tokens.len(),
    decreases left_from(tokens, cursor), 3 * rank(level) + 2,
{
    match level {
        Level::Equality => lemma_binary_within(tokens, cursor, Level::Comparison),
        Level::Comparison => lemma_binary_within(tokens, cursor, Level::Term),
        Level::Term => lemma_binary_within(tokens, cursor, Level::Factor),
        Level::Factor => lemma_unary_within(tokens, cursor),
    }
}

proof fn lemma_rest_within(tokens: Seq<TokenView>, cursor: int, level: Level, left: ExprView)
    requires
        terminated(tokens),
        0 <= cursor < tokens.len(),
    ensures
        cursor + binary_rest(tokens, cursor, level, left).used < tokens.len(),
    decreases left_from(tokens, cursor), 3 * rank(level) + 2,
{
    if is_operator(level, tokens[cursor].typ) {
        lemma_operand_within(tokens, cursor + 1, level);
        let right = operand(tokens, cursor + 1, level);
        let folded = ExprView::Binary {
            left: Box::new(left),
            op: tokens[cursor],
            right: Box::new(right.expr),
        };
        lemma_rest_within(tokens, cursor + 1 + right.used, level, folded);
    }
}

proof fn lemma_unary_within(tokens: Seq<TokenView>, cursor: int)
    requires
        terminated(tokens),
        0 <= cursor < tokens.len(),
    ensures
        cursor + unary(tokens, cursor).used < tokens.len(),
    decreases left_from(tokens, cursor), 1nat,
{
    if is_prefix(tokens[cursor].typ) {
        lemma_unary_within(tokens, cursor + 1);
    } else {
        lemma_primary_within(tokens, cursor);
    }
}

proof fn lemma_primary_within(tokens: Seq<TokenView>, cursor: int)
    requires
        terminated(tokens),
        0 <= cursor < tokens.len(),
    ensures
        cursor + primary(tokens, cursor).used < tokens.len(),
    decreases left_from(tokens, cursor), 0nat,
{
    if !is_literal(tokens[cursor].typ) && tokens[cursor].typ == Type::LeftParen {
        lemma_expression_within(tokens, cursor + 1);
    }
}

/// Scanning and parsing keep no state from one run to the next: two scans
/// of one text hold the same tokens, and the two parses of those tokens
/// hand back the same tree, or the same errors.
pub proof fn lemma_same_text_same_result(
    src: Seq<char>,
    first_tokens: Seq<Token>,
    second_tokens: Seq<Token>,
    first: Result<Expr, String>,
    second: Result<Expr, String>,
)
    requires
        token_views(first_tokens) == scan(src, 0),
        token_views(second_tokens) == scan(src, 0),
        reports(
            first,
            expression(token_views(first_tokens), 0).expr,
            expression(token_views(first_tokens), 0).errors,
        ),
        reports(
            second,
            expression(token_views(second_tokens), 0).expr,
            expression(token_views(second_tokens), 0).errors,
        ),
    ensures
        token_views(first_tokens) == token_views(second_tokens),
        first is Ok <==> second is Ok,
        first is Ok ==> first->Ok_0@ == second->Ok_0@,
        first is Err ==> first->Err_0@ == second->Err_0@,
{
}

} // verus!
