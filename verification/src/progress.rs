//! Parsing moves forward: every function of the grammar ends at or after
//! the token at which it began, and within the tokens.
//!
//! The grammar asks this of what it has parsed before it goes on; by the
//! lemmas here what it asks always holds.

use vstd::prelude::*;
use crate::ast::{ExprView, StmtView};
use crate::grammar::{
    advance, forward, is_binary_operator, parse_array, parse_block, parse_block_statements, parse_call,
    parse_expression, parse_expression_list, parse_expression_statement,
    parse_function_declaration, parse_function_expression, parse_function_parameters,
    parse_grouped, parse_index, parse_infixed, parse_let_statement, parse_more_expressions,
    parse_more_parameters, parse_operators, parse_prefixed, parse_return_statement,
    parse_statement, parse_term,
};
use crate::precedence::Precedence;
use crate::token::{TokenKind, TokenKindView, TokenView};

verus! {

/// An expression ends at or after its first token.
pub proof fn lemma_expression_moves_forward(toks: Seq<TokenView>, pos: int, precedence: Precedence)
    requires
        0 <= pos <= toks.len(),
    ensures
        forward(toks, pos, parse_expression(toks, pos, precedence).pos),
    decreases toks.len() - pos, 7nat,
{
    lemma_term_moves_forward(toks, pos);
    let first = parse_term(toks, pos);
    match first.result {
        Ok(left) => {
            lemma_operators_move_forward(toks, first.pos, precedence, left);
        },
        Err(_) => {},
    }
}

/// A term ends at or after its first token.
pub proof fn lemma_term_moves_forward(toks: Seq<TokenView>, pos: int)
    requires
        0 <= pos <= toks.len(),
    ensures
        forward(toks, pos, parse_term(toks, pos).pos),
    decreases toks.len() - pos, 6nat,
{
    if pos < toks.len() {
        match toks[pos].kind {
            TokenKind::Bang | TokenKind::Minus => {
                lemma_prefixed_moves_forward(toks, pos);
            },
            TokenKind::Function => {
                lemma_function_expression_moves_forward(toks, pos);
            },
            TokenKind::LeftParen => {
                lemma_grouped_moves_forward(toks, pos);
            },
            TokenKind::LeftBracket => {
                lemma_array_moves_forward(toks, pos);
            },
            _ => {},
        }
    }
}

/// The operators that are folded into an expression end at or after it.
pub proof fn lemma_operators_move_forward(
    toks: Seq<TokenView>,
    pos: int,
    precedence: Precedence,
    left: ExprView,
)
    requires
        0 <= pos <= toks.len(),
    ensures
        forward(toks, pos, parse_operators(toks, pos, precedence, left).pos),
    decreases toks.len() - pos, 5nat,
{
    if pos + 1 < toks.len() {
        let next = toks[pos + 1];
        if !(next.kind is SemiColon || !(precedence.rank() < Precedence::of(next.kind).rank())) {
            lemma_infixed_moves_forward(toks, pos + 1, left);
            lemma_call_moves_forward(toks, pos + 1, left);
            lemma_index_moves_forward(toks, pos + 1, left);
            let folded = if is_binary_operator(next.kind) {
                parse_infixed(toks, pos + 1, left)
            } else if next.kind is LeftParen {
                parse_call(toks, pos + 1, left)
            } else {
                parse_index(toks, pos + 1, left)
            };
            match folded.result {
                Ok(e) => {
                    lemma_operators_move_forward(toks, folded.pos, precedence, e);
                },
                Err(_) => {},
            }
        }
    }
}

/// An infix operation ends at or after its operator.
pub proof fn lemma_infixed_moves_forward(toks: Seq<TokenView>, pos: int, left: ExprView)
    requires
        0 <= pos <= toks.len(),
    ensures
        forward(toks, pos, parse_infixed(toks, pos, left).pos),
    decreases toks.len() - pos, 5nat,
{
    if pos < toks.len() {
        lemma_expression_moves_forward(toks, pos + 1, Precedence::of(toks[pos].kind));
    }
}

/// A prefix operation ends at or after its operator.
pub proof fn lemma_prefixed_moves_forward(toks: Seq<TokenView>, pos: int)
    requires
        0 <= pos <= toks.len(),
    ensures
        forward(toks, pos, parse_prefixed(toks, pos).pos),
    decreases toks.len() - pos, 5nat,
{
    if pos < toks.len() {
        lemma_expression_moves_forward(toks, pos + 1, Precedence::Prefix);
    }
}

/// An expression in parentheses ends at or after the opening one.
pub proof fn lemma_grouped_moves_forward(toks: Seq<TokenView>, pos: int)
    requires
        0 <= pos <= toks.len(),
    ensures
        forward(toks, pos, parse_grouped(toks, pos).pos),
    decreases toks.len() - pos, 5nat,
{
    if pos < toks.len() {
        lemma_expression_moves_forward(toks, pos + 1, Precedence::Lowest);
    }
}

/// An array ends at or after its opening bracket.
pub proof fn lemma_array_moves_forward(toks: Seq<TokenView>, pos: int)
    requires
        0 <= pos <= toks.len(),
    ensures
        forward(toks, pos, parse_array(toks, pos).pos),
    decreases toks.len() - pos, 5nat,
{
    lemma_expression_list_moves_forward(toks, pos, TokenKind::RightBracket);
}

/// A call ends at or after its opening parenthesis.
pub proof fn lemma_call_moves_forward(toks: Seq<TokenView>, pos: int, callee: ExprView)
    requires
        0 <= pos <= toks.len(),
    ensures
        forward(toks, pos, parse_call(toks, pos, callee).pos),
    decreases toks.len() - pos, 5nat,
{
    lemma_expression_list_moves_forward(toks, pos, TokenKind::RightParen);
}

/// An indexing ends at or after its opening bracket.
pub proof fn lemma_index_moves_forward(toks: Seq<TokenView>, pos: int, of: ExprView)
    requires
        0 <= pos <= toks.len(),
    ensures
        forward(toks, pos, parse_index(toks, pos, of).pos),
    decreases toks.len() - pos, 5nat,
{
    if pos < toks.len() {
        lemma_expression_moves_forward(toks, pos + 1, Precedence::Lowest);
    }
}

/// A list of expressions ends at or after its opening token.
pub proof fn lemma_expression_list_moves_forward(
    toks: Seq<TokenView>,
    pos: int,
    end: TokenKindView,
)
    requires
        0 <= pos <= toks.len(),
    ensures
        forward(toks, pos, parse_expression_list(toks, pos, end).pos),
    decreases toks.len() - pos, 4nat,
{
    if pos < toks.len() {
        lemma_expression_moves_forward(toks, pos + 1, Precedence::Lowest);
        let first = parse_expression(toks, pos + 1, Precedence::Lowest);
        match first.result {
            Ok(e) => {
                lemma_more_expressions_move_forward(toks, first.pos, end, seq![e]);
            },
            Err(_) => {},
        }
    }
}

/// The rest of a list of expressions ends at or after where it began.
pub proof fn lemma_more_expressions_move_forward(
    toks: Seq<TokenView>,
    pos: int,
    end: TokenKindView,
    list: Seq<ExprView>,
)
    requires
        0 <= pos <= toks.len(),
    ensures
        forward(toks, pos, parse_more_expressions(toks, pos, end, list).pos),
    decreases toks.len() - pos, 4nat,
{
    if pos + 1 < toks.len() && toks[pos + 1].kind == TokenKindView::Comma {
        lemma_expression_moves_forward(toks, pos + 2, Precedence::Lowest);
        let next = parse_expression(toks, pos + 2, Precedence::Lowest);
        match next.result {
            Ok(e) => {
                lemma_more_expressions_move_forward(toks, next.pos, end, list.push(e));
            },
            Err(_) => {},
        }
    }
}

/// The rest of a list of parameters ends at or after where it began.
pub proof fn lemma_more_parameters_move_forward(
    toks: Seq<TokenView>,
    pos: int,
    list: Seq<TokenView>,
)
    requires
        0 <= pos <= toks.len(),
    ensures
        forward(toks, pos, parse_more_parameters(toks, pos, list).pos),
    decreases toks.len() - pos,
{
    if pos + 2 < toks.len() && toks[pos + 1].kind == TokenKindView::Comma && toks[pos
        + 2].kind is Identifier {
        lemma_more_parameters_move_forward(toks, pos + 2, list.push(toks[pos + 2]));
    }
}

/// The parameters of a function end at or after the opening parenthesis.
pub proof fn lemma_function_parameters_move_forward(toks: Seq<TokenView>, pos: int)
    requires
        0 <= pos <= toks.len(),
    ensures
        forward(toks, pos, parse_function_parameters(toks, pos).pos),
{
    if pos + 1 < toks.len() {
        lemma_more_parameters_move_forward(toks, pos + 1, seq![toks[pos + 1]]);
    }
}

/// A function literal ends at or after its `fn`.
pub proof fn lemma_function_expression_moves_forward(toks: Seq<TokenView>, pos: int)
    requires
        0 <= pos <= toks.len(),
    ensures
        forward(toks, pos, parse_function_expression(toks, pos).pos),
    decreases toks.len() - pos, 5nat,
{
    if pos + 1 < toks.len() {
        lemma_function_parameters_move_forward(toks, pos + 1);
        let parameters = parse_function_parameters(toks, pos + 1);
        lemma_block_moves_forward(toks, advance(toks, parameters.pos));
    }
}

/// A block ends at or after its opening brace.
pub proof fn lemma_block_moves_forward(toks: Seq<TokenView>, pos: int)
    requires
        0 <= pos <= toks.len(),
    ensures
        forward(toks, pos, parse_block(toks, pos).pos),
    decreases toks.len() - pos, 8nat,
{
    if pos < toks.len() {
        lemma_block_statements_move_forward(toks, pos + 1, Seq::empty());
    }
}

/// The statements of a block end at or after where they began.
pub proof fn lemma_block_statements_move_forward(
    toks: Seq<TokenView>,
    pos: int,
    list: Seq<StmtView>,
)
    requires
        0 <= pos <= toks.len(),
    ensures
        forward(toks, pos, parse_block_statements(toks, pos, list).pos),
    decreases toks.len() - pos, 10nat,
{
    if pos < toks.len() && !(toks[pos].kind is RightCurly) {
        lemma_statement_moves_forward(toks, pos);
        let statement = parse_statement(toks, pos);
        match statement.result {
            Ok(s) => {
                lemma_block_statements_move_forward(
                    toks,
                    advance(toks, statement.pos),
                    list.push(s),
                );
            },
            Err(_) => {},
        }
    }
}

/// A statement ends at or after its first token.
pub proof fn lemma_statement_moves_forward(toks: Seq<TokenView>, pos: int)
    requires
        0 <= pos <= toks.len(),
    ensures
        forward(toks, pos, parse_statement(toks, pos).pos),
    decreases toks.len() - pos, 9nat,
{
    if pos < toks.len() {
        match toks[pos].kind {
            TokenKind::Let => {
                lemma_let_moves_forward(toks, pos);
            },
            TokenKind::Return => {
                lemma_return_moves_forward(toks, pos);
            },
            TokenKind::Function => {
                lemma_function_declaration_moves_forward(toks, pos);
                lemma_expression_statement_moves_forward(toks, pos);
            },
            TokenKind::LeftCurly => {
                lemma_block_moves_forward(toks, pos);
            },
            TokenKind::ILLEGAL(_) => {},
            _ => {
                lemma_expression_statement_moves_forward(toks, pos);
            },
        }
    }
}

/// A `let` statement ends at or after its `let`.
pub proof fn lemma_let_moves_forward(toks: Seq<TokenView>, pos: int)
    requires
        0 <= pos <= toks.len(),
    ensures
        forward(toks, pos, parse_let_statement(toks, pos).pos),
    decreases toks.len() - pos, 8nat,
{
    if pos + 2 < toks.len() {
        lemma_expression_moves_forward(toks, pos + 3, Precedence::Lowest);
    }
}

/// A `return` statement ends at or after its `return`.
pub proof fn lemma_return_moves_forward(toks: Seq<TokenView>, pos: int)
    requires
        0 <= pos <= toks.len(),
    ensures
        forward(toks, pos, parse_return_statement(toks, pos).pos),
    decreases toks.len() - pos, 8nat,
{
    if pos < toks.len() {
        lemma_expression_moves_forward(toks, pos + 1, Precedence::Lowest);
    }
}

/// An expression statement ends at or after its first token.
pub proof fn lemma_expression_statement_moves_forward(toks: Seq<TokenView>, pos: int)
    requires
        0 <= pos <= toks.len(),
    ensures
        forward(toks, pos, parse_expression_statement(toks, pos).pos),
    decreases toks.len() - pos, 8nat,
{
    if pos < toks.len() {
        lemma_expression_moves_forward(toks, pos, Precedence::Lowest);
    }
}

/// A function declaration ends at or after its `fn`.
pub proof fn lemma_function_declaration_moves_forward(toks: Seq<TokenView>, pos: int)
    requires
        0 <= pos <= toks.len(),
    ensures
        forward(toks, pos, parse_function_declaration(toks, pos).pos),
    decreases toks.len() - pos, 8nat,
{
    if pos + 2 < toks.len() {
        lemma_function_parameters_move_forward(toks, pos + 2);
        let parameters = parse_function_parameters(toks, pos + 2);
        lemma_block_moves_forward(toks, advance(toks, parameters.pos));
    }
}

} // verus!
