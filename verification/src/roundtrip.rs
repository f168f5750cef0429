//! Rendering a tree and parsing the text again gives the same tree.
//!
//! This is shown for the expressions that are made of names, numbers,
//! booleans and arrays, of prefix and infix operations, and of calls and
//! indexings: their canonical text puts every operation in parentheses, so
//! that it parses back to the same tree whatever the precedence of the
//! operators. It does not hold of string literals, whose canonical text
//! has no quotes.

use vstd::prelude::*;
use crate::ast::{ExprView, StmtView};
use crate::grammar::{
    expect_kind, forward, is_binary_operator, kind_at, parse_array, parse_call, parse_expression,
    parse_expression_list, parse_expression_statement, parse_grouped, parse_index, parse_infixed,
    parse_more_expressions, parse_operators, parse_prefixed, parse_program, parse_statement,
    parse_statements, parse_term, token_at, Collected, Parsed, ParserErrorView,
};
use crate::lexer::{
    char_at, dots, float_literal_ok, in_class, lemma_run_end, lex_step, lexeme, number_kind,
    position_of, run_end, tokens_from, tokens_of, CharClass, LexStep,
};
use crate::precedence::Precedence;
use crate::render::{render_expr, render_exprs};
use crate::text::{
    all_digits, decimal_text, decimal_value, digit_char, digit_value, integer_literal, is_ascii,
    is_digit, is_number_char, is_numeric, is_whitespace, is_word_char,
};
use crate::token::{word_kind, Token, TokenKind, TokenKindView, TokenView};

verus! {

/// An expression made of names, numbers, booleans and arrays, of prefix and
/// infix operations, and of calls and indexings, each with a token of its
/// kind.
pub open spec fn plain(e: ExprView) -> bool
    decreases e,
{
    match e {
        ExprView::Identifier(t) => t.kind is Identifier,
        ExprView::Integer(t) => t.kind is Integer,
        ExprView::Float(t) => t.kind is Float,
        ExprView::Boolean(t) => t.kind is True || t.kind is False,
        ExprView::Prefixed(op, right) => (op.kind is Bang || op.kind is Minus) && plain(*right),
        ExprView::Infixed(left, op, right) => is_binary_operator(op.kind) && plain(*left) && plain(
            *right,
        ),
        ExprView::Array(t, elements) => t.kind is LeftBracket && forall|i: int|
            0 <= i < elements.len() ==> plain(#[trigger] elements[i]),
        ExprView::FunctionCall(t, function, arguments) => t.kind is LeftParen && plain(*function)
            && forall|i: int| 0 <= i < arguments.len() ==> plain(#[trigger] arguments[i]),
        ExprView::Index(t, of, index) => t.kind is LeftBracket && plain(*of) && plain(*index),
        _ => false,
    }
}

/// Every expression of the list is plain.
pub open spec fn all_plain(es: Seq<ExprView>) -> bool {
    forall|i: int| 0 <= i < es.len() ==> plain(#[trigger] es[i])
}

/// The two expressions are the same tree, but for the positions of their
/// tokens.
pub open spec fn same_tree(a: ExprView, b: ExprView) -> bool
    decreases a,
{
    match (a, b) {
        (ExprView::Identifier(s), ExprView::Identifier(t)) => s.kind == t.kind,
        (ExprView::Integer(s), ExprView::Integer(t)) => s.kind == t.kind,
        (ExprView::Float(s), ExprView::Float(t)) => s.kind == t.kind,
        (ExprView::Boolean(s), ExprView::Boolean(t)) => s.kind == t.kind,
        (ExprView::Prefixed(s, x), ExprView::Prefixed(t, y)) => s.kind == t.kind && same_tree(
            *x,
            *y,
        ),
        (ExprView::Infixed(w, s, x), ExprView::Infixed(z, t, y)) => s.kind == t.kind && same_tree(
            *w,
            *z,
        ) && same_tree(*x, *y),
        (ExprView::Array(s, xs), ExprView::Array(t, ys)) => s.kind == t.kind && xs.len()
            == ys.len() && forall|i: int|
            0 <= i < xs.len() ==> same_tree(#[trigger] xs[i], ys[i]),
        (ExprView::FunctionCall(s, f, xs), ExprView::FunctionCall(t, g, ys)) => s.kind == t.kind
            && same_tree(*f, *g) && xs.len() == ys.len() && forall|i: int|
            0 <= i < xs.len() ==> same_tree(#[trigger] xs[i], ys[i]),
        (ExprView::Index(s, w, x), ExprView::Index(t, z, y)) => s.kind == t.kind && same_tree(
            *w,
            *z,
        ) && same_tree(*x, *y),
        _ => false,
    }
}

/// The expressions of the two lists are the same trees, one by one.
pub open spec fn same_trees(xs: Seq<ExprView>, ys: Seq<ExprView>) -> bool {
    xs.len() == ys.len() && forall|i: int| 0 <= i < xs.len() ==> same_tree(#[trigger] xs[i], ys[i])
}

/// The kinds of the tokens that the canonical text of a plain expression
/// is made of: an operation stands in parentheses.
pub open spec fn kinds_of(e: ExprView) -> Seq<TokenKindView>
    decreases e,
{
    match e {
        ExprView::Identifier(t) => seq![t.kind],
        ExprView::Integer(t) => seq![t.kind],
        ExprView::Float(t) => seq![t.kind],
        ExprView::Boolean(t) => seq![t.kind],
        ExprView::Prefixed(op, right) => seq![TokenKind::LeftParen, op.kind] + kinds_of(*right)
            + seq![TokenKind::RightParen],
        ExprView::Infixed(left, op, right) => seq![TokenKind::LeftParen] + kinds_of(*left)
            + seq![op.kind] + kinds_of(*right) + seq![TokenKind::RightParen],
        ExprView::Array(_, elements) => seq![TokenKind::LeftBracket] + kinds_of_list(elements)
            + seq![TokenKind::RightBracket],
        ExprView::FunctionCall(_, function, arguments) => kinds_of(*function)
            + seq![TokenKind::LeftParen] + kinds_of_list(arguments) + seq![TokenKind::RightParen],
        ExprView::Index(_, of, index) => kinds_of(*of) + seq![TokenKind::LeftBracket] + kinds_of(
            *index,
        ) + seq![TokenKind::RightBracket],
        _ => Seq::empty(),
    }
}

/// The kinds of the tokens of a list of expressions: those of the
/// expressions, with a comma between neighbours.
pub open spec fn kinds_of_list(es: Seq<ExprView>) -> Seq<TokenKindView>
    decreases es,
{
    if es.len() == 0 {
        Seq::empty()
    } else if es.len() == 1 {
        kinds_of(es[0])
    } else {
        kinds_of_list(es.drop_last()) + seq![TokenKind::Comma] + kinds_of(es.last())
    }
}

/// The tokens from index `p` on have the kinds `kinds`.
pub open spec fn spells(toks: Seq<TokenView>, p: int, kinds: Seq<TokenKindView>) -> bool {
    &&& 0 <= p
    &&& p + kinds.len() <= toks.len()
    &&& forall|k: int| 0 <= k < kinds.len() ==> (#[trigger] toks[p + k]).kind == kinds[k]
}

/// The tree that is read from the tokens of `e` where they stand from
/// index `p` on: `e` with the tokens that stand there.
pub open spec fn reread(toks: Seq<TokenView>, p: int, e: ExprView) -> ExprView
    decreases e,
{
    match e {
        ExprView::Identifier(_) => ExprView::Identifier(toks[p]),
        ExprView::Integer(_) => ExprView::Integer(toks[p]),
        ExprView::Float(_) => ExprView::Float(toks[p]),
        ExprView::Boolean(_) => ExprView::Boolean(toks[p]),
        ExprView::Prefixed(_, right) => ExprView::Prefixed(
            toks[p + 1],
            Box::new(reread(toks, p + 2, *right)),
        ),
        ExprView::Infixed(left, _, right) => ExprView::Infixed(
            Box::new(reread(toks, p + 1, *left)),
            toks[p + 1 + kinds_of(*left).len()],
            Box::new(reread(toks, p + 2 + kinds_of(*left).len(), *right)),
        ),
        ExprView::Array(_, elements) => ExprView::Array(
            toks[p],
            reread_list(toks, p + 1, elements),
        ),
        ExprView::FunctionCall(_, function, arguments) => ExprView::FunctionCall(
            toks[p + kinds_of(*function).len()],
            Box::new(reread(toks, p, *function)),
            reread_list(toks, p + kinds_of(*function).len() + 1, arguments),
        ),
        ExprView::Index(_, of, index) => ExprView::Index(
            toks[p + kinds_of(*of).len()],
            Box::new(reread(toks, p, *of)),
            Box::new(reread(toks, p + kinds_of(*of).len() + 1, *index)),
        ),
        _ => e,
    }
}

/// The trees that are read from the tokens of a list where they stand from
/// index `p` on.
pub open spec fn reread_list(toks: Seq<TokenView>, p: int, es: Seq<ExprView>) -> Seq<ExprView>
    decreases es,
{
    if es.len() == 0 {
        Seq::empty()
    } else if es.len() == 1 {
        seq![reread(toks, p, es[0])]
    } else {
        reread_list(toks, p, es.drop_last()).push(
            reread(toks, p + kinds_of_list(es.drop_last()).len() + 1, es.last()),
        )
    }
}

/// A plain expression is made of at least one token, and the first is no
/// closing mark and no comma.
pub proof fn lemma_kinds_nonempty(e: ExprView)
    requires
        plain(e),
    ensures
        kinds_of(e).len() >= 1,
        !(kinds_of(e)[0] is RightParen),
        !(kinds_of(e)[0] is RightBracket),
        !(kinds_of(e)[0] is Comma),
    decreases e,
{
    match e {
        ExprView::FunctionCall(_, function, _) => {
            lemma_kinds_nonempty(*function);
        },
        ExprView::Index(_, of, _) => {
            lemma_kinds_nonempty(*of);
        },
        _ => {},
    }
}

/// Tokens that spell a sequence spell every part of it.
proof fn lemma_spells_part(
    toks: Seq<TokenView>,
    p: int,
    kinds: Seq<TokenKindView>,
    from: int,
    part: Seq<TokenKindView>,
)
    requires
        spells(toks, p, kinds),
        0 <= from,
        from + part.len() <= kinds.len(),
        forall|k: int| 0 <= k < part.len() ==> part[k] == kinds[from + k],
    ensures
        spells(toks, p + from, part),
{
    assert forall|k: int| 0 <= k < part.len() implies (#[trigger] toks[p + from + k]).kind
        == part[k] by {
        assert(toks[p + (from + k)].kind == kinds[from + k]);
    }
}

/// The kinds of the first expressions of a list stand at the start of the
/// kinds of the list, a comma after them if more follow.
proof fn lemma_kinds_of_first(es: Seq<ExprView>, k: int)
    requires
        1 <= k <= es.len(),
        all_plain(es),
    ensures
        kinds_of_list(es.take(k)).len() >= 1,
        kinds_of_list(es.take(k)).len() <= kinds_of_list(es).len(),
        forall|j: int|
            0 <= j < kinds_of_list(es.take(k)).len() ==> kinds_of_list(es.take(k))[j]
                == #[trigger] kinds_of_list(es)[j],
        k < es.len() ==> kinds_of_list(es.take(k)).len() < kinds_of_list(es).len()
            && kinds_of_list(es)[kinds_of_list(es.take(k)).len() as int] is Comma,
    decreases es.len() - k,
{
    let first = es.take(k);
    assert(plain(es[0]));
    lemma_kinds_nonempty(es[0]);
    assert(first.len() == k);
    if k == 1 {
        assert(first[0] == es[0]);
    } else {
        assert(first.drop_last() =~= es.take(k - 1));
        assert(first.last() == es[k - 1]);
        assert(plain(es[k - 1]));
        lemma_kinds_nonempty(es[k - 1]);
    }
    if k == es.len() {
        assert(first =~= es);
    } else {
        let more = es.take(k + 1);
        assert(more.drop_last() =~= first);
        assert(more.last() == es[k]);
        assert(plain(es[k]));
        lemma_kinds_nonempty(es[k]);
        assert(kinds_of_list(more) == kinds_of_list(first) + seq![TokenKindView::Comma]
            + kinds_of(es[k]));
        lemma_kinds_of_first(es, k + 1);
        assert(kinds_of_list(more)[kinds_of_list(first).len() as int] is Comma);
        assert forall|j: int| 0 <= j < kinds_of_list(first).len() implies kinds_of_list(first)[j]
            == #[trigger] kinds_of_list(es)[j] by {
            assert(kinds_of_list(more)[j] == kinds_of_list(first)[j]);
        }
    }
}

/// What is read from tokens that spell a plain expression is the same
/// tree.
pub proof fn lemma_reread_is_same(toks: Seq<TokenView>, p: int, e: ExprView)
    requires
        plain(e),
        spells(toks, p, kinds_of(e)),
    ensures
        same_tree(reread(toks, p, e), e),
    decreases e, 0nat,
{
    let kinds = kinds_of(e);
    lemma_kinds_nonempty(e);
    match e {
        ExprView::Prefixed(op, right) => {
            assert(toks[p + 1].kind == kinds[1]);
            lemma_spells_part(toks, p, kinds, 2, kinds_of(*right));
            lemma_reread_is_same(toks, p + 2, *right);
        },
        ExprView::Infixed(left, op, right) => {
            let m = kinds_of(*left).len() as int;
            assert(toks[p + (m + 1)].kind == kinds[m + 1]);
            lemma_spells_part(toks, p, kinds, 1, kinds_of(*left));
            lemma_spells_part(toks, p, kinds, m + 2, kinds_of(*right));
            lemma_reread_is_same(toks, p + 1, *left);
            lemma_reread_is_same(toks, p + m + 2, *right);
        },
        ExprView::Array(t, elements) => {
            assert(toks[p + 0].kind == kinds[0]);
            lemma_spells_part(toks, p, kinds, 1, kinds_of_list(elements));
            lemma_reread_list_is_same(toks, p + 1, elements);
        },
        ExprView::FunctionCall(t, function, arguments) => {
            let m = kinds_of(*function).len() as int;
            assert(toks[p + m].kind == kinds[m]);
            lemma_spells_part(toks, p, kinds, 0, kinds_of(*function));
            lemma_spells_part(toks, p, kinds, m + 1, kinds_of_list(arguments));
            lemma_reread_is_same(toks, p, *function);
            lemma_reread_list_is_same(toks, p + m + 1, arguments);
        },
        ExprView::Index(t, of, index) => {
            let m = kinds_of(*of).len() as int;
            assert(toks[p + m].kind == kinds[m]);
            lemma_spells_part(toks, p, kinds, 0, kinds_of(*of));
            lemma_spells_part(toks, p, kinds, m + 1, kinds_of(*index));
            lemma_reread_is_same(toks, p, *of);
            lemma_reread_is_same(toks, p + m + 1, *index);
        },
        _ => {
            assert(toks[p + 0].kind == kinds[0]);
        },
    }
}

/// What is read from tokens that spell a list of plain expressions is the
/// same trees.
pub proof fn lemma_reread_list_is_same(toks: Seq<TokenView>, p: int, es: Seq<ExprView>)
    requires
        all_plain(es),
        spells(toks, p, kinds_of_list(es)),
    ensures
        same_trees(reread_list(toks, p, es), es),
    decreases es, 1nat,
{
    if es.len() == 1 {
        lemma_reread_is_same(toks, p, es[0]);
    } else if es.len() > 1 {
        let first = es.drop_last();
        let kinds = kinds_of_list(es);
        let m = kinds_of_list(first).len() as int;
        assert(all_plain(first));
        lemma_spells_part(toks, p, kinds, 0, kinds_of_list(first));
        lemma_spells_part(toks, p, kinds, m + 1, kinds_of(es.last()));
        lemma_reread_list_is_same(toks, p, first);
        lemma_reread_is_same(toks, p + m + 1, es.last());
        let again = reread_list(toks, p, es);
        assert forall|i: int| 0 <= i < again.len() implies same_tree(
            #[trigger] again[i],
            es[i],
        ) by {
            if i < first.len() {
                assert(again[i] == reread_list(toks, p, first)[i]);
                assert(es[i] == first[i]);
            }
        }
    }
}

/// A precedence under which a call and an indexing are folded in: any but
/// those of the call and of the indexing themselves.
pub open spec fn takes_postfix(precedence: Precedence) -> bool {
    precedence.rank() <= Precedence::Prefix.rank()
}

/// Where a closing mark, a comma or nothing follows, no operator is folded
/// in.
proof fn lemma_operators_stop(toks: Seq<TokenView>, pos: int, precedence: Precedence, left: ExprView)
    requires
        match token_at(toks, pos + 1) {
            Some(next) => next.kind is RightParen || next.kind is RightBracket
                || next.kind is Comma,
            None => true,
        },
    ensures
        parse_operators(toks, pos, precedence, left) == (Parsed { result: Ok(left), pos }),
{
}

/// A prefix operation in parentheses is read as a term, once its operand
/// is read.
proof fn lemma_prefixed_in_parentheses(toks: Seq<TokenView>, p: int, r: ExprView, end: int)
    requires
        0 <= p,
        p + 2 <= end,
        end + 1 < toks.len(),
        toks[p].kind is LeftParen,
        toks[p + 1].kind is Bang || toks[p + 1].kind is Minus,
        parse_expression(toks, p + 2, Precedence::Prefix) == parse_operators(
            toks,
            end,
            Precedence::Prefix,
            r,
        ),
        toks[end + 1].kind is RightParen,
    ensures
        parse_term(toks, p) == (Parsed {
            result: Ok(ExprView::Prefixed(toks[p + 1], Box::new(r))),
            pos: end + 1,
        }),
{
    let prefixed = ExprView::Prefixed(toks[p + 1], Box::new(r));
    lemma_operators_stop(toks, end, Precedence::Prefix, r);
    assert(parse_prefixed(toks, p + 1) == (Parsed { result: Ok(prefixed), pos: end }));
    assert(parse_term(toks, p + 1) == parse_prefixed(toks, p + 1));
    lemma_operators_stop(toks, end, Precedence::Lowest, prefixed);
    assert(parse_expression(toks, p + 1, Precedence::Lowest) == (Parsed {
        result: Ok(prefixed),
        pos: end,
    }));
    assert(expect_kind(token_at(toks, p), TokenKind::LeftParen) is None);
    assert(expect_kind(token_at(toks, end + 1), TokenKind::RightParen) is None);
    assert(parse_grouped(toks, p) == (Parsed { result: Ok(prefixed), pos: end + 1 }));
}

/// The operator and the right operand of an infix operation are folded
/// into the left operand, where a closing parenthesis follows.
proof fn lemma_operator_is_folded(
    toks: Seq<TokenView>,
    end_left: int,
    l: ExprView,
    r: ExprView,
    end: int,
)
    requires
        0 <= end_left,
        end_left + 2 <= end,
        end + 1 < toks.len(),
        is_binary_operator(toks[end_left + 1].kind),
        parse_expression(toks, end_left + 2, Precedence::of(toks[end_left + 1].kind))
            == parse_operators(toks, end, Precedence::of(toks[end_left + 1].kind), r),
        toks[end + 1].kind is RightParen,
    ensures
        parse_operators(toks, end_left, Precedence::Lowest, l) == (Parsed {
            result: Ok(ExprView::Infixed(Box::new(l), toks[end_left + 1], Box::new(r))),
            pos: end,
        }),
{
    let op_token = toks[end_left + 1];
    let infixed = ExprView::Infixed(Box::new(l), op_token, Box::new(r));
    lemma_operators_stop(toks, end, Precedence::of(op_token.kind), r);
    assert(token_at(toks, end_left + 1) == Some(op_token));
    assert(parse_infixed(toks, end_left + 1, l) == (Parsed { result: Ok(infixed), pos: end }));
    lemma_operators_stop(toks, end, Precedence::Lowest, infixed);
    assert(Precedence::Lowest.rank() < Precedence::of(op_token.kind).rank());
    assert(!(op_token.kind is SemiColon));
}

/// An infix operation in parentheses is read as a term, once its operands
/// are read.
proof fn lemma_infixed_in_parentheses(
    toks: Seq<TokenView>,
    p: int,
    l: ExprView,
    end_left: int,
    r: ExprView,
    end: int,
)
    requires
        0 <= p,
        p + 1 <= end_left,
        end_left + 2 <= end,
        end + 1 < toks.len(),
        toks[p].kind is LeftParen,
        parse_expression(toks, p + 1, Precedence::Lowest) == parse_operators(
            toks,
            end_left,
            Precedence::Lowest,
            l,
        ),
        is_binary_operator(toks[end_left + 1].kind),
        parse_expression(toks, end_left + 2, Precedence::of(toks[end_left + 1].kind))
            == parse_operators(toks, end, Precedence::of(toks[end_left + 1].kind), r),
        toks[end + 1].kind is RightParen,
    ensures
        parse_term(toks, p) == (Parsed {
            result: Ok(ExprView::Infixed(Box::new(l), toks[end_left + 1], Box::new(r))),
            pos: end + 1,
        }),
{
    let infixed = ExprView::Infixed(Box::new(l), toks[end_left + 1], Box::new(r));
    lemma_operator_is_folded(toks, end_left, l, r, end);
    assert(expect_kind(token_at(toks, p), TokenKind::LeftParen) is None);
    assert(expect_kind(token_at(toks, end + 1), TokenKind::RightParen) is None);
    assert(parse_grouped(toks, p) == (Parsed { result: Ok(infixed), pos: end + 1 }));
}

/// A call is folded into its callee, once its arguments are read.
proof fn lemma_call_is_folded(
    toks: Seq<TokenView>,
    end_callee: int,
    precedence: Precedence,
    callee: ExprView,
    arguments: Seq<ExprView>,
    end: int,
)
    requires
        0 <= end_callee,
        end_callee + 2 <= end <= toks.len(),
        takes_postfix(precedence),
        toks[end_callee + 1].kind is LeftParen,
        parse_expression_list(toks, end_callee + 1, TokenKind::RightParen) == (Parsed {
            result: Ok(arguments),
            pos: end,
        }),
    ensures
        parse_operators(toks, end_callee, precedence, callee) == parse_operators(
            toks,
            end,
            precedence,
            ExprView::FunctionCall(toks[end_callee + 1], Box::new(callee), arguments),
        ),
{
    let call = ExprView::FunctionCall(toks[end_callee + 1], Box::new(callee), arguments);
    assert(token_at(toks, end_callee + 1) == Some(toks[end_callee + 1]));
    assert(expect_kind(token_at(toks, end_callee + 1), TokenKind::LeftParen) is None);
    assert(parse_call(toks, end_callee + 1, callee) == (Parsed { result: Ok(call), pos: end }));
    assert(!is_binary_operator(toks[end_callee + 1].kind));
    assert(precedence.rank() < Precedence::of(toks[end_callee + 1].kind).rank());
}

/// An indexing is folded into what it indexes, once the index is read.
proof fn lemma_index_is_folded(
    toks: Seq<TokenView>,
    end_of: int,
    precedence: Precedence,
    of: ExprView,
    index: ExprView,
    end: int,
)
    requires
        0 <= end_of,
        end_of + 2 <= end,
        end + 1 < toks.len(),
        takes_postfix(precedence),
        toks[end_of + 1].kind is LeftBracket,
        parse_expression(toks, end_of + 2, Precedence::Lowest) == parse_operators(
            toks,
            end,
            Precedence::Lowest,
            index,
        ),
        toks[end + 1].kind is RightBracket,
    ensures
        parse_operators(toks, end_of, precedence, of) == parse_operators(
            toks,
            end + 1,
            precedence,
            ExprView::Index(toks[end_of + 1], Box::new(of), Box::new(index)),
        ),
{
    let indexing = ExprView::Index(toks[end_of + 1], Box::new(of), Box::new(index));
    lemma_operators_stop(toks, end, Precedence::Lowest, index);
    assert(token_at(toks, end_of + 1) == Some(toks[end_of + 1]));
    assert(expect_kind(token_at(toks, end_of + 1), TokenKind::LeftBracket) is None);
    assert(expect_kind(token_at(toks, end + 1), TokenKind::RightBracket) is None);
    assert(parse_index(toks, end_of + 1, of) == (Parsed {
        result: Ok(indexing),
        pos: end + 1,
    }));
    assert(!is_binary_operator(toks[end_of + 1].kind));
    assert(!(toks[end_of + 1].kind is LeftParen));
    assert(precedence.rank() < Precedence::of(toks[end_of + 1].kind).rank());
}

/// An array is read as a term, once its elements are read.
proof fn lemma_array_is_read(toks: Seq<TokenView>, p: int, elements: Seq<ExprView>, end: int)
    requires
        0 <= p < toks.len(),
        toks[p].kind is LeftBracket,
        parse_expression_list(toks, p, TokenKind::RightBracket) == (Parsed {
            result: Ok(elements),
            pos: end,
        }),
    ensures
        parse_term(toks, p) == (Parsed { result: Ok(ExprView::Array(toks[p], elements)), pos: end }),
{
    assert(expect_kind(token_at(toks, p), TokenKind::LeftBracket) is None);
    assert(parse_array(toks, p) == (Parsed {
        result: Ok(ExprView::Array(toks[p], elements)),
        pos: end,
    }));
}

/// Tokens that spell a plain expression are read as the expression: the
/// parser comes to stand at the last of them, about to fold into the
/// expression the operators that follow.
pub proof fn lemma_reads(toks: Seq<TokenView>, p: int, precedence: Precedence, e: ExprView)
    requires
        plain(e),
        spells(toks, p, kinds_of(e)),
        takes_postfix(precedence),
    ensures
        parse_expression(toks, p, precedence) == parse_operators(
            toks,
            p + kinds_of(e).len() - 1,
            precedence,
            reread(toks, p, e),
        ),
    decreases e, 1nat,
{
    match e {
        ExprView::Prefixed(_, _) => {
            lemma_reads_prefixed(toks, p, precedence, e);
        },
        ExprView::Infixed(_, _, _) => {
            lemma_reads_infixed(toks, p, precedence, e);
        },
        ExprView::Array(_, _) => {
            lemma_reads_array(toks, p, precedence, e);
        },
        ExprView::FunctionCall(_, _, _) => {
            lemma_reads_call(toks, p, precedence, e);
        },
        ExprView::Index(_, _, _) => {
            lemma_reads_index(toks, p, precedence, e);
        },
        _ => {
            assert(toks[p + 0].kind == kinds_of(e)[0]);
        },
    }
}

/// `lemma_reads` for a prefix operation.
proof fn lemma_reads_prefixed(toks: Seq<TokenView>, p: int, precedence: Precedence, e: ExprView)
    requires
        e is Prefixed,
        plain(e),
        spells(toks, p, kinds_of(e)),
        takes_postfix(precedence),
    ensures
        parse_expression(toks, p, precedence) == parse_operators(
            toks,
            p + kinds_of(e).len() - 1,
            precedence,
            reread(toks, p, e),
        ),
    decreases e, 0nat,
{
    let kinds = kinds_of(e);
    let right = *e->Prefixed_1;
    let n = kinds_of(right).len() as int;
    lemma_kinds_nonempty(right);
    assert(toks[p + 0].kind == kinds[0]);
    assert(toks[p + 1].kind == kinds[1]);
    assert(toks[p + (n + 2)].kind == kinds[n + 2]);
    lemma_spells_part(toks, p, kinds, 2, kinds_of(right));
    lemma_reads(toks, p + 2, Precedence::Prefix, right);
    lemma_prefixed_in_parentheses(toks, p, reread(toks, p + 2, right), p + 2 + n - 1);
}

/// `lemma_reads` for an infix operation.
proof fn lemma_reads_infixed(toks: Seq<TokenView>, p: int, precedence: Precedence, e: ExprView)
    requires
        e is Infixed,
        plain(e),
        spells(toks, p, kinds_of(e)),
        takes_postfix(precedence),
    ensures
        parse_expression(toks, p, precedence) == parse_operators(
            toks,
            p + kinds_of(e).len() - 1,
            precedence,
            reread(toks, p, e),
        ),
    decreases e, 0nat,
{
    let kinds = kinds_of(e);
    let left = *e->Infixed_0;
    let right = *e->Infixed_2;
    let m = kinds_of(left).len() as int;
    let n = kinds_of(right).len() as int;
    lemma_kinds_nonempty(left);
    lemma_kinds_nonempty(right);
    assert(toks[p + 0].kind == kinds[0]);
    assert(toks[p + (m + 1)].kind == kinds[m + 1]);
    assert(toks[p + (m + n + 2)].kind == kinds[m + n + 2]);
    lemma_spells_part(toks, p, kinds, 1, kinds_of(left));
    lemma_spells_part(toks, p, kinds, m + 2, kinds_of(right));
    lemma_reads(toks, p + 1, Precedence::Lowest, left);
    lemma_reads(toks, p + m + 2, Precedence::of(toks[p + m + 1].kind), right);
    lemma_infixed_in_parentheses(
        toks,
        p,
        reread(toks, p + 1, left),
        p + m,
        reread(toks, p + m + 2, right),
        p + m + n + 1,
    );
}

/// `lemma_reads` for an array.
proof fn lemma_reads_array(toks: Seq<TokenView>, p: int, precedence: Precedence, e: ExprView)
    requires
        e is Array,
        plain(e),
        spells(toks, p, kinds_of(e)),
        takes_postfix(precedence),
    ensures
        parse_expression(toks, p, precedence) == parse_operators(
            toks,
            p + kinds_of(e).len() - 1,
            precedence,
            reread(toks, p, e),
        ),
    decreases e, 0nat,
{
    let kinds = kinds_of(e);
    let elements = e->Array_1;
    let n = kinds_of_list(elements).len() as int;
    assert(toks[p + 0].kind == kinds[0]);
    assert(toks[p + (n + 1)].kind == kinds[n + 1]);
    lemma_spells_part(toks, p, kinds, 1, kinds_of_list(elements));
    lemma_reads_list(toks, p, TokenKind::RightBracket, elements);
    lemma_array_is_read(toks, p, reread_list(toks, p + 1, elements), p + n + 1);
}

/// `lemma_reads` for a call.
proof fn lemma_reads_call(toks: Seq<TokenView>, p: int, precedence: Precedence, e: ExprView)
    requires
        e is FunctionCall,
        plain(e),
        spells(toks, p, kinds_of(e)),
        takes_postfix(precedence),
    ensures
        parse_expression(toks, p, precedence) == parse_operators(
            toks,
            p + kinds_of(e).len() - 1,
            precedence,
            reread(toks, p, e),
        ),
    decreases e, 0nat,
{
    let kinds = kinds_of(e);
    let function = *e->FunctionCall_1;
    let arguments = e->FunctionCall_2;
    let m = kinds_of(function).len() as int;
    let n = kinds_of_list(arguments).len() as int;
    lemma_kinds_nonempty(function);
    assert(toks[p + m].kind == kinds[m]);
    assert(toks[p + (m + n + 1)].kind == kinds[m + n + 1]);
    lemma_spells_part(toks, p, kinds, 0, kinds_of(function));
    lemma_spells_part(toks, p, kinds, m + 1, kinds_of_list(arguments));
    lemma_reads(toks, p, precedence, function);
    lemma_reads_list(toks, p + m, TokenKind::RightParen, arguments);
    lemma_call_is_folded(
        toks,
        p + m - 1,
        precedence,
        reread(toks, p, function),
        reread_list(toks, p + m + 1, arguments),
        p + m + n + 1,
    );
}

/// `lemma_reads` for an indexing.
proof fn lemma_reads_index(toks: Seq<TokenView>, p: int, precedence: Precedence, e: ExprView)
    requires
        e is Index,
        plain(e),
        spells(toks, p, kinds_of(e)),
        takes_postfix(precedence),
    ensures
        parse_expression(toks, p, precedence) == parse_operators(
            toks,
            p + kinds_of(e).len() - 1,
            precedence,
            reread(toks, p, e),
        ),
    decreases e, 0nat,
{
    let kinds = kinds_of(e);
    let of = *e->Index_1;
    let index = *e->Index_2;
    let m = kinds_of(of).len() as int;
    let n = kinds_of(index).len() as int;
    lemma_kinds_nonempty(of);
    lemma_kinds_nonempty(index);
    assert(toks[p + m].kind == kinds[m]);
    assert(toks[p + (m + n + 1)].kind == kinds[m + n + 1]);
    lemma_spells_part(toks, p, kinds, 0, kinds_of(of));
    lemma_spells_part(toks, p, kinds, m + 1, kinds_of(index));
    lemma_reads(toks, p, precedence, of);
    lemma_reads(toks, p + m + 1, Precedence::Lowest, index);
    lemma_index_is_folded(
        toks,
        p + m - 1,
        precedence,
        reread(toks, p, of),
        reread(toks, p + m + 1, index),
        p + m + n,
    );
}

/// Tokens that spell a list of plain expressions between an opening token
/// and the closing one are read as the list, and the parser comes to stand
/// at the closing token.
pub proof fn lemma_reads_list(
    toks: Seq<TokenView>,
    open: int,
    end: TokenKindView,
    es: Seq<ExprView>,
)
    requires
        all_plain(es),
        0 <= open,
        spells(toks, open + 1, kinds_of_list(es)),
        open + 1 + kinds_of_list(es).len() < toks.len(),
        toks[open + 1 + kinds_of_list(es).len()].kind == end,
        end is RightParen || end is RightBracket,
    ensures
        parse_expression_list(toks, open, end) == (Parsed {
            result: Ok(reread_list(toks, open + 1, es)),
            pos: open + 1 + kinds_of_list(es).len(),
        }),
    decreases es, es.len() + 2,
{
    let kinds = kinds_of_list(es);
    if es.len() == 0 {
        assert(kind_at(toks, open + 1, end));
    } else {
        lemma_kinds_of_first(es, 1);
        let one = es.take(1);
        assert(one[0] == es[0]);
        assert(plain(es[0]));
        lemma_kinds_nonempty(es[0]);
        let n = kinds_of(es[0]).len() as int;
        assert(kinds_of_list(one) == kinds_of(es[0]));
        lemma_spells_part(toks, open + 1, kinds, 0, kinds_of(es[0]));
        assert(toks[open + 1 + 0].kind == kinds[0]);
        assert(!kind_at(toks, open + 1, end));
        lemma_reads(toks, open + 1, Precedence::Lowest, es[0]);
        if es.len() > 1 {
            assert(toks[open + 1 + n].kind == kinds[n]);
        } else {
            assert(one =~= es);
        }
        lemma_operators_stop(toks, open + n, Precedence::Lowest, reread(toks, open + 1, es[0]));
        assert(reread_list(toks, open + 1, one) == seq![reread(toks, open + 1, es[0])]);
        lemma_reads_more(toks, open, end, es, 1);
    }
}

/// Once the first `k` expressions of a list are read, the rest is read,
/// and the parser comes to stand at the closing token.
pub proof fn lemma_reads_more(
    toks: Seq<TokenView>,
    open: int,
    end: TokenKindView,
    es: Seq<ExprView>,
    k: int,
)
    requires
        all_plain(es),
        0 <= open,
        1 <= k <= es.len(),
        spells(toks, open + 1, kinds_of_list(es)),
        open + 1 + kinds_of_list(es).len() < toks.len(),
        toks[open + 1 + kinds_of_list(es).len()].kind == end,
        end is RightParen || end is RightBracket,
    ensures
        parse_more_expressions(
            toks,
            open + kinds_of_list(es.take(k)).len(),
            end,
            reread_list(toks, open + 1, es.take(k)),
        ) == (Parsed {
            result: Ok(reread_list(toks, open + 1, es)),
            pos: open + 1 + kinds_of_list(es).len(),
        }),
    decreases es, es.len() - k,
{
    let kinds = kinds_of_list(es);
    let first = es.take(k);
    let at = open + kinds_of_list(first).len();
    let list = reread_list(toks, open + 1, first);
    lemma_kinds_of_first(es, k);
    if k == es.len() {
        assert(first =~= es);
        assert(!kind_at(toks, at + 1, TokenKind::Comma));
        assert(expect_kind(token_at(toks, at + 1), end) is None);
    } else {
        let more = es.take(k + 1);
        assert(more.drop_last() =~= first);
        assert(more.last() == es[k]);
        assert(plain(es[k]));
        lemma_kinds_nonempty(es[k]);
        lemma_kinds_of_first(es, k + 1);
        let m = kinds_of_list(first).len() as int;
        let n = kinds_of(es[k]).len() as int;
        assert(kinds_of_list(more) == kinds_of_list(first) + seq![TokenKindView::Comma]
            + kinds_of(es[k]));
        assert(toks[open + 1 + m].kind == kinds[m]);
        assert(kind_at(toks, at + 1, TokenKind::Comma));
        assert forall|j: int| 0 <= j < n implies kinds_of(es[k])[j] == kinds[m + 1 + j] by {
            assert(kinds_of_list(more)[m + 1 + j] == kinds_of(es[k])[j]);
        }
        lemma_spells_part(toks, open + 1, kinds, m + 1, kinds_of(es[k]));
        lemma_reads(toks, at + 2, Precedence::Lowest, es[k]);
        if k + 1 < es.len() {
            assert(toks[open + 1 + (m + 1 + n)].kind == kinds[m + 1 + n]);
        }
        let next = reread(toks, at + 2, es[k]);
        lemma_operators_stop(toks, at + 1 + n, Precedence::Lowest, next);
        assert(reread_list(toks, open + 1, more) == list.push(next));
        lemma_reads_more(toks, open, end, es, k + 1);
    }
}

/// The kinds of the tokens.
pub open spec fn token_kinds(ts: Seq<TokenView>) -> Seq<TokenKindView> {
    Seq::new(ts.len(), |i: int| ts[i].kind)
}

/// Neither a word nor a number goes on at index `i`: the text ends there,
/// or the character there belongs to neither.
pub open spec fn ends_at(chars: Seq<char>, i: int) -> bool {
    match char_at(chars, i) {
        Some(c) => !is_word_char(c) && !is_number_char(c),
        None => true,
    }
}

/// A character with which the text of an expression may start: an opening
/// parenthesis or bracket, a digit, or the first character of a word.
pub open spec fn starts_term(c: char) -> bool {
    c == '(' || c == '[' || is_digit(c) || (is_word_char(c) && !is_whitespace(c))
}

/// A run of characters of one class, up to a character outside of it or to
/// the end of the text, is what `run_end` finds.
pub proof fn lemma_run_is(chars: Seq<char>, a: int, b: int, class: CharClass)
    requires
        0 <= a <= b <= chars.len(),
        forall|k: int| a <= k < b ==> in_class(class, #[trigger] chars[k]),
        b < chars.len() ==> !in_class(class, chars[b]),
    ensures
        run_end(chars, a, class) == b,
    decreases b - a,
{
    if a < b {
        lemma_run_is(chars, a + 1, b, class);
    }
}

/// Where a token starts at index `i`, the tokens from there on are that
/// token and the tokens from its end on.
pub proof fn lemma_one_token(chars: Seq<char>, i: int, kind: TokenKindView, end: int)
    requires
        0 <= i < chars.len(),
        !is_whitespace(chars[i]),
        !(chars[i] == '/' && char_at(chars, i + 1) == Some('/')),
        lexeme(chars, i) == (Some(kind), end),
        i < end <= chars.len(),
    ensures
        token_kinds(tokens_from(chars, i)) == seq![kind] + token_kinds(tokens_from(chars, end)),
{
    assert(run_end(chars, i, CharClass::Blank) == i);
    let token = Token { kind, position: position_of(chars, i) };
    assert(lex_step(chars, i) == LexStep::Token(token, end));
    assert(tokens_from(chars, i) == seq![token] + tokens_from(chars, end));
    assert(token_kinds(tokens_from(chars, i)) =~= seq![kind] + token_kinds(
        tokens_from(chars, end),
    ));
}

/// The digits of a number are digits, and they denote the number.
pub proof fn lemma_decimal_text(n: nat)
    ensures
        decimal_text(n).len() >= 1,
        all_digits(decimal_text(n)),
        decimal_value(decimal_text(n)) == n,
    decreases n,
{
    let d = n % 10;
    assert(is_digit(digit_char(d)) && digit_value(digit_char(d)) == d) by {
        lemma_digit(d);
    }
    if n < 10 {
        let s = decimal_text(n);
        assert(s =~= seq![digit_char(n)]);
        assert(s.drop_last() =~= Seq::<char>::empty());
        assert(decimal_value(s.drop_last()) == 0);
    } else {
        lemma_decimal_text(n / 10);
        let s = decimal_text(n / 10);
        let t = decimal_text(n);
        assert(t == s.push(digit_char(d)));
        assert(t.drop_last() =~= s);
        assert(t.last() == digit_char(d));
        assert forall|i: int| 0 <= i < t.len() implies is_digit(#[trigger] t[i]) by {
            if i < s.len() {
                assert(t[i] == s[i]);
            }
        }
    }
}

/// The character of a digit is a digit of that value.
pub proof fn lemma_digit(d: nat)
    requires
        d < 10,
    ensures
        is_digit(digit_char(d)),
        digit_value(digit_char(d)) == d,
{
    let digits = seq!['0', '1', '2', '3', '4', '5', '6', '7', '8', '9'];
    assert(digits[0] == '0');
    assert(digits[1] == '1');
    assert(digits[2] == '2');
    assert(digits[3] == '3');
    assert(digits[4] == '4');
    assert(digits[5] == '5');
    assert(digits[6] == '6');
    assert(digits[7] == '7');
    assert(digits[8] == '8');
    assert(digits[9] == '9');
}

/// A text without a dot holds no dot.
pub proof fn lemma_no_dots(s: Seq<char>)
    requires
        forall|i: int| 0 <= i < s.len() ==> #[trigger] s[i] != '.',
    ensures
        dots(s) == 0,
    decreases s.len(),
{
    if s.len() > 0 {
        lemma_no_dots(s.drop_last());
    }
}

/// A name as the tokenizer reads it: a word that is no keyword, and whose
/// first character is no white space.
pub open spec fn is_name(s: Seq<char>) -> bool {
    &&& s.len() > 0
    &&& forall|i: int| 0 <= i < s.len() ==> is_word_char(#[trigger] s[i])
    &&& !is_whitespace(s[0])
    &&& word_kind(s) == TokenKindView::Identifier(s)
}

/// A plain expression whose tokens are such as the tokenizer gives: the
/// names are names, the integers are not negative, the floats are well
/// formed.
pub open spec fn renderable(e: ExprView) -> bool
    decreases e,
{
    match e {
        ExprView::Identifier(t) => match t.kind {
            TokenKind::Identifier(s) => is_name(s),
            _ => false,
        },
        ExprView::Integer(t) => match t.kind {
            TokenKind::Integer(i) => i >= 0,
            _ => false,
        },
        ExprView::Float(t) => match t.kind {
            TokenKind::Float(s) => float_literal_ok(s),
            _ => false,
        },
        ExprView::Boolean(t) => t.kind is True || t.kind is False,
        ExprView::Prefixed(op, right) => (op.kind is Bang || op.kind is Minus) && renderable(
            *right,
        ),
        ExprView::Infixed(left, op, right) => is_binary_operator(op.kind) && renderable(*left)
            && renderable(*right),
        ExprView::Array(t, elements) => t.kind is LeftBracket && forall|i: int|
            0 <= i < elements.len() ==> renderable(#[trigger] elements[i]),
        ExprView::FunctionCall(t, function, arguments) => t.kind is LeftParen && renderable(
            *function,
        ) && forall|i: int| 0 <= i < arguments.len() ==> renderable(#[trigger] arguments[i]),
        ExprView::Index(t, of, index) => t.kind is LeftBracket && renderable(*of) && renderable(
            *index,
        ),
        _ => false,
    }
}

/// Every expression of the list is renderable.
pub open spec fn all_renderable(es: Seq<ExprView>) -> bool {
    forall|i: int| 0 <= i < es.len() ==> renderable(#[trigger] es[i])
}

/// A renderable expression is plain.
pub proof fn lemma_renderable_is_plain(e: ExprView)
    requires
        renderable(e),
    ensures
        plain(e),
    decreases e,
{
    match e {
        ExprView::Prefixed(_, right) => {
            lemma_renderable_is_plain(*right);
        },
        ExprView::Infixed(left, _, right) => {
            lemma_renderable_is_plain(*left);
            lemma_renderable_is_plain(*right);
        },
        ExprView::Array(_, elements) => {
            assert forall|i: int| 0 <= i < elements.len() implies plain(
                #[trigger] elements[i],
            ) by {
                lemma_renderable_is_plain(elements[i]);
            }
        },
        ExprView::FunctionCall(_, function, arguments) => {
            lemma_renderable_is_plain(*function);
            assert forall|i: int| 0 <= i < arguments.len() implies plain(
                #[trigger] arguments[i],
            ) by {
                lemma_renderable_is_plain(arguments[i]);
            }
        },
        ExprView::Index(_, of, index) => {
            lemma_renderable_is_plain(*of);
            lemma_renderable_is_plain(*index);
        },
        _ => {},
    }
}

/// The marks of the language are ASCII characters that belong to no word
/// and, but for the dot, to no number, and that are no white space.
pub proof fn lemma_marks(c: char)
    requires
        c == '+' || c == '-' || c == '*' || c == '/' || c == ';' || c == ':' || c == '(' || c
            == ')' || c == '{' || c == '}' || c == '[' || c == ']' || c == ',' || c == '.' || c
            == '=' || c == '!' || c == '>' || c == '<' || c == '"',
    ensures
        is_ascii(c),
        !is_word_char(c),
        !is_whitespace(c),
        !is_digit(c),
        c != '.' ==> !is_number_char(c),
{
}

/// A word in the text, where no word goes on after it, is one token.
pub proof fn lemma_lexeme_word(chars: Seq<char>, i: int, s: Seq<char>)
    requires
        0 <= i,
        i + s.len() <= chars.len(),
        chars.subrange(i, i + s.len()) == s,
        s.len() > 0,
        forall|k: int| 0 <= k < s.len() ==> is_word_char(#[trigger] s[k]),
        !is_whitespace(s[0]),
        ends_at(chars, i + s.len()),
    ensures
        lexeme(chars, i) == (Some(word_kind(s)), i + s.len()),
        !is_whitespace(chars[i]),
        chars[i] != '/',
{
    let c = chars[i];
    assert(c == s[0]) by {
        assert(chars.subrange(i, i + s.len())[0] == chars[i]);
    }
    assert(c != '+' && c != '-' && c != '*' && c != '/' && c != ';' && c != ':' && c != '(' && c
        != ')' && c != '{' && c != '}' && c != '[' && c != ']' && c != ',' && c != '.' && c != '='
        && c != '!' && c != '>' && c != '<' && c != '"') by {
        if c == '+' || c == '-' || c == '*' || c == '/' || c == ';' || c == ':' || c == '(' || c
            == ')' || c == '{' || c == '}' || c == '[' || c == ']' || c == ',' || c == '.' || c
            == '=' || c == '!' || c == '>' || c == '<' || c == '"' {
            lemma_marks(c);
        }
    }
    assert forall|k: int| i + 1 <= k < i + s.len() implies in_class(
        CharClass::Word,
        #[trigger] chars[k],
    ) by {
        assert(chars.subrange(i, i + s.len())[k - i] == chars[k]);
    }
    lemma_run_is(chars, i + 1, i + s.len(), CharClass::Word);
}

/// A number in the text, where no number goes on after it, is one token.
pub proof fn lemma_lexeme_number(chars: Seq<char>, i: int, s: Seq<char>)
    requires
        0 <= i,
        i + s.len() <= chars.len(),
        chars.subrange(i, i + s.len()) == s,
        s.len() > 0,
        is_digit(s[0]),
        forall|k: int| 0 <= k < s.len() ==> is_digit(#[trigger] s[k]) || s[k] == '.',
        ends_at(chars, i + s.len()),
    ensures
        lexeme(chars, i) == (number_kind(s), i + s.len()),
        !is_whitespace(chars[i]),
        chars[i] != '/',
{
    let c = chars[i];
    assert(c == s[0]) by {
        assert(chars.subrange(i, i + s.len())[0] == chars[i]);
    }
    assert(is_ascii(c));
    assert(c != '+' && c != '-' && c != '*' && c != '/' && c != ';' && c != ':' && c != '(' && c
        != ')' && c != '{' && c != '}' && c != '[' && c != ']' && c != ',' && c != '.' && c != '='
        && c != '!' && c != '>' && c != '<' && c != '"') by {
        if c == '+' || c == '-' || c == '*' || c == '/' || c == ';' || c == ':' || c == '(' || c
            == ')' || c == '{' || c == '}' || c == '[' || c == ']' || c == ',' || c == '.' || c
            == '=' || c == '!' || c == '>' || c == '<' || c == '"' {
            lemma_marks(c);
        }
    }
    assert(!is_word_char(c));
    assert(is_numeric(c));
    assert forall|k: int| i + 1 <= k < i + s.len() implies in_class(
        CharClass::Number,
        #[trigger] chars[k],
    ) by {
        let d = chars.subrange(i, i + s.len())[k - i];
        assert(d == chars[k]);
        assert(is_digit(s[k - i]) || s[k - i] == '.');
    }
    lemma_run_is(chars, i + 1, i + s.len(), CharClass::Number);
}

/// The operators of plain expressions: those that stand between two
/// operands, and `!`.
pub open spec fn is_operator(kind: TokenKindView) -> bool {
    is_binary_operator(kind) || kind is Bang
}

/// An operator in the text, where a term follows it, is one token. It
/// ends a word or a number that stands before it.
pub proof fn lemma_lexeme_operator(chars: Seq<char>, i: int, kind: TokenKindView)
    requires
        is_operator(kind),
        0 <= i,
        i + kind.text().len() < chars.len(),
        chars.subrange(i, i + kind.text().len()) == kind.text(),
        starts_term(chars[i + kind.text().len()]),
    ensures
        kind.text().len() >= 1,
        lexeme(chars, i) == (Some(kind), i + kind.text().len()),
        !is_whitespace(chars[i]),
        !(chars[i] == '/' && char_at(chars, i + 1) == Some('/')),
        ends_at(chars, i),
{
    reveal_strlit("+");
    reveal_strlit("-");
    reveal_strlit("*");
    reveal_strlit("/");
    reveal_strlit("!");
    reveal_strlit("<");
    reveal_strlit(">");
    reveal_strlit("==");
    reveal_strlit("!=");
    reveal_strlit("<=");
    reveal_strlit(">=");
    let t = kind.text();
    let next = chars[i + t.len()];
    assert(next != '=' && next != '/') by {
        if next == '=' || next == '/' {
            lemma_marks(next);
        }
    }
    assert(chars.subrange(i, i + t.len())[0] == chars[i]);
    if t.len() == 2 {
        assert(chars.subrange(i, i + t.len())[1] == chars[i + 1]);
    }
    lemma_marks(chars[i]);
}

/// The kind of the token that a parenthesis, a bracket or a comma is.
pub open spec fn mark_kind(c: char) -> TokenKindView {
    if c == '(' {
        TokenKind::LeftParen
    } else if c == ')' {
        TokenKind::RightParen
    } else if c == '[' {
        TokenKind::LeftBracket
    } else if c == ']' {
        TokenKind::RightBracket
    } else {
        TokenKind::Comma
    }
}

/// A parenthesis, a bracket or a comma in the text is one token. It ends a
/// word or a number that stands before it.
pub proof fn lemma_lexeme_mark(chars: Seq<char>, i: int)
    requires
        0 <= i < chars.len(),
        chars[i] == '(' || chars[i] == ')' || chars[i] == '[' || chars[i] == ']' || chars[i]
            == ',',
    ensures
        lexeme(chars, i) == (Some(mark_kind(chars[i])), i + 1),
        !is_whitespace(chars[i]),
        chars[i] != '/',
        ends_at(chars, i),
        token_kinds(tokens_from(chars, i)) == seq![mark_kind(chars[i])] + token_kinds(
            tokens_from(chars, i + 1),
        ),
{
    lemma_marks(chars[i]);
    lemma_one_token(chars, i, mark_kind(chars[i]), i + 1);
}

/// White space before a token is skipped.
pub proof fn lemma_blank_is_skipped(chars: Seq<char>, i: int)
    requires
        0 <= i < chars.len(),
        is_whitespace(chars[i]),
    ensures
        tokens_from(chars, i) == tokens_from(chars, i + 1),
{
    let j = run_end(chars, i, CharClass::Blank);
    assert(j == run_end(chars, i + 1, CharClass::Blank));
    lemma_run_end(chars, i + 1, CharClass::Blank);
    if j < chars.len() {
        if chars[j] == '/' && char_at(chars, j + 1) == Some('/') {
            let k = run_end(chars, j, CharClass::CommentBody);
            lemma_run_end(chars, j, CharClass::CommentBody);
        } else {
            crate::lexer::lemma_lexeme_advances(chars, j);
        }
    }
    assert(lex_step(chars, i) == lex_step(chars, i + 1));
    crate::lexer::lemma_lex_step_advances(chars, i + 1);
}

/// The token of a name, of a number or of a boolean.
pub open spec fn atom_kind(e: ExprView) -> TokenKindView {
    match e {
        ExprView::Identifier(t) => t.kind,
        ExprView::Integer(t) => t.kind,
        ExprView::Float(t) => t.kind,
        ExprView::Boolean(t) => t.kind,
        _ => arbitrary(),
    }
}

/// Whether the expression is a name, a number or a boolean.
pub open spec fn is_atom(e: ExprView) -> bool {
    e is Identifier || e is Integer || e is Float || e is Boolean
}

/// The text of a name, of a number or of a boolean, where neither a word
/// nor a number goes on after it, is one token: that of the expression.
pub proof fn lemma_lexeme_atom(chars: Seq<char>, i: int, e: ExprView)
    requires
        renderable(e),
        is_atom(e),
        0 <= i,
        i + render_expr(e).len() <= chars.len(),
        chars.subrange(i, i + render_expr(e).len()) == render_expr(e),
        ends_at(chars, i + render_expr(e).len()),
    ensures
        render_expr(e).len() >= 1,
        lexeme(chars, i) == (Some(atom_kind(e)), i + render_expr(e).len()),
        !is_whitespace(chars[i]),
        chars[i] != '/',
        starts_term(chars[i]),
{
    let s = render_expr(e);
    match e {
        ExprView::Identifier(t) => {
            lemma_lexeme_word(chars, i, s);
            assert(chars.subrange(i, i + s.len())[0] == chars[i]);
        },
        ExprView::Boolean(t) => {
            reveal_strlit("true");
            reveal_strlit("false");
            reveal_strlit("let");
            reveal_strlit("fn");
            reveal_strlit("return");
            reveal_strlit("if");
            reveal_strlit("else");
            assert(s.len() >= 4);
            assert(is_ascii(s[0]) && is_ascii(s[1]) && is_ascii(s[2]) && is_ascii(s[3]));
            if t.kind is False {
                assert(is_ascii(s[4]));
            }
            assert forall|k: int| 0 <= k < s.len() implies is_word_char(#[trigger] s[k]) by {
                if t.kind is True {
                    assert(k == 0 || k == 1 || k == 2 || k == 3);
                } else {
                    assert(k == 0 || k == 1 || k == 2 || k == 3 || k == 4);
                }
            }
            lemma_lexeme_word(chars, i, s);
            assert(s != "let"@);
            assert(s != "fn"@);
            assert(s != "return"@);
            assert(s != "if"@);
            assert(s != "else"@) by {
                assert(s[0] != "else"@[0]);
            }
            if t.kind is False {
                assert(s != "true"@);
            }
            assert(chars.subrange(i, i + s.len())[0] == chars[i]);
        },
        ExprView::Integer(t) => {
            let n = t.kind->Integer_0;
            assert(s == decimal_text(n as nat));
            lemma_decimal_text(n as nat);
            assert(is_digit(s[0]));
            lemma_lexeme_number(chars, i, s);
            assert forall|k: int| 0 <= k < s.len() implies #[trigger] s[k] != '.' by {
                assert(is_digit(s[k]));
            }
            lemma_no_dots(s);
            assert(integer_literal(s) == Some(n));
            assert(chars.subrange(i, i + s.len())[0] == chars[i]);
        },
        ExprView::Float(t) => {
            lemma_lexeme_number(chars, i, s);
            assert(chars.subrange(i, i + s.len())[0] == chars[i]);
        },
        _ => {},
    }
}

/// The text of a renderable expression starts with a character with which
/// an expression may start.
pub proof fn lemma_text_start(e: ExprView)
    requires
        renderable(e),
    ensures
        render_expr(e).len() >= 1,
        starts_term(render_expr(e)[0]),
    decreases e,
{
    let s = render_expr(e);
    reveal_strlit("(");
    reveal_strlit("[");
    match e {
        ExprView::Identifier(t) => {},
        ExprView::Boolean(t) => {
            reveal_strlit("true");
            reveal_strlit("false");
            assert(is_ascii(s[0]));
        },
        ExprView::Integer(t) => {
            lemma_decimal_text(t.kind->Integer_0 as nat);
            assert(is_digit(s[0]));
        },
        ExprView::Float(t) => {},
        ExprView::Prefixed(op, right) => {
            assert(s[0] == '(');
        },
        ExprView::Infixed(left, op, right) => {
            assert(s[0] == '(');
        },
        ExprView::Array(t, elements) => {
            assert(s[0] == '[');
        },
        ExprView::FunctionCall(_, function, _) => {
            lemma_text_start(*function);
            assert(s[0] == render_expr(*function)[0]);
        },
        ExprView::Index(_, of, _) => {
            lemma_text_start(*of);
            assert(s[0] == render_expr(*of)[0]);
        },
        _ => {},
    }
}


/// Where the text of an infix operation stands in a text: the operands
/// stand in it, each where neither a word nor a number goes on after it,
/// and the parentheses and the operator are read as one token each.
proof fn lemma_infixed_layout(
    chars: Seq<char>,
    i: int,
    left: ExprView,
    op: TokenView,
    right: ExprView,
)
    requires
        renderable(ExprView::Infixed(Box::new(left), op, Box::new(right))),
        0 <= i,
        i + render_expr(ExprView::Infixed(Box::new(left), op, Box::new(right))).len()
            <= chars.len(),
        chars.subrange(
            i,
            i + render_expr(ExprView::Infixed(Box::new(left), op, Box::new(right))).len(),
        ) == render_expr(ExprView::Infixed(Box::new(left), op, Box::new(right))),
    ensures
        ({
            let a = i + 1;
            let b = a + render_expr(left).len();
            let c = b + op.text().len();
            let d = c + render_expr(right).len();
            &&& d + 1 == i + render_expr(
                ExprView::Infixed(Box::new(left), op, Box::new(right)),
            ).len()
            &&& chars.subrange(a, b) == render_expr(left)
            &&& ends_at(chars, b)
            &&& chars.subrange(c, d) == render_expr(right)
            &&& ends_at(chars, d)
            &&& token_kinds(tokens_from(chars, i)) == seq![TokenKindView::LeftParen] + token_kinds(
                tokens_from(chars, a),
            )
            &&& token_kinds(tokens_from(chars, b)) == seq![op.kind] + token_kinds(
                tokens_from(chars, c),
            )
            &&& token_kinds(tokens_from(chars, d)) == seq![TokenKindView::RightParen]
                + token_kinds(tokens_from(chars, d + 1))
        }),
{
    let e = ExprView::Infixed(Box::new(left), op, Box::new(right));
    let s = render_expr(e);
    let m = s.len() as int;
    assert forall|j: int| 0 <= j < m implies chars[i + j] == s[j] by {
        assert(chars.subrange(i, i + m)[j] == chars[i + j]);
    }
    reveal_strlit("(");
    reveal_strlit(")");
    let rl = render_expr(left);
    let ot = op.text();
    let rr = render_expr(right);
    lemma_text_start(left);
    lemma_text_start(right);
    let a = i + 1;
    let b = a + rl.len();
    assert(ot.len() >= 1) by {
        reveal_strlit("+");
        reveal_strlit("-");
        reveal_strlit("*");
        reveal_strlit("/");
        reveal_strlit("<");
        reveal_strlit(">");
        reveal_strlit("==");
        reveal_strlit("!=");
        reveal_strlit("<=");
        reveal_strlit(">=");
    }
    let c = b + ot.len();
    let d = c + rr.len();
    assert(s =~= "("@ + rl + ot + rr + ")"@);
    assert(m == d + 1 - i);
    assert(chars[i] == '(') by {
        assert(chars[i + 0] == s[0]);
    }
    assert(chars[d] == ')') by {
        assert(chars[i + (d - i)] == s[d - i]);
    }
    assert(chars[c] == rr[0]) by {
        assert(chars[i + (c - i)] == s[c - i]);
    }
    assert(chars.subrange(a, b) =~= rl) by {
        assert forall|k: int| 0 <= k < rl.len() implies chars.subrange(a, b)[k] == rl[k] by {
            assert(chars[i + (1 + k)] == s[1 + k]);
        }
    }
    assert(chars.subrange(b, c) =~= ot) by {
        assert forall|k: int| 0 <= k < ot.len() implies chars.subrange(b, c)[k] == ot[k] by {
            assert(chars[i + (b - i + k)] == s[b - i + k]);
        }
    }
    assert(chars.subrange(c, d) =~= rr) by {
        assert forall|k: int| 0 <= k < rr.len() implies chars.subrange(c, d)[k] == rr[k] by {
            assert(chars[i + (c - i + k)] == s[c - i + k]);
        }
    }
    lemma_lexeme_mark(chars, i);
    lemma_lexeme_operator(chars, b, op.kind);
    lemma_one_token(chars, b, op.kind, c);
    lemma_lexeme_mark(chars, d);
}

/// Where the text of a prefix operation stands in a text: the operand
/// stands in it, where neither a word nor a number goes on after it, and
/// the parentheses and the operator are read as one token each.
proof fn lemma_prefixed_layout(chars: Seq<char>, i: int, op: TokenView, right: ExprView)
    requires
        renderable(ExprView::Prefixed(op, Box::new(right))),
        0 <= i,
        i + render_expr(ExprView::Prefixed(op, Box::new(right))).len() <= chars.len(),
        chars.subrange(i, i + render_expr(ExprView::Prefixed(op, Box::new(right))).len())
            == render_expr(ExprView::Prefixed(op, Box::new(right))),
    ensures
        ({
            let a = i + 1;
            let c = a + op.text().len();
            let d = c + render_expr(right).len();
            &&& d + 1 == i + render_expr(ExprView::Prefixed(op, Box::new(right))).len()
            &&& chars.subrange(c, d) == render_expr(right)
            &&& ends_at(chars, d)
            &&& token_kinds(tokens_from(chars, i)) == seq![TokenKindView::LeftParen] + token_kinds(
                tokens_from(chars, a),
            )
            &&& token_kinds(tokens_from(chars, a)) == seq![op.kind] + token_kinds(
                tokens_from(chars, c),
            )
            &&& token_kinds(tokens_from(chars, d)) == seq![TokenKindView::RightParen]
                + token_kinds(tokens_from(chars, d + 1))
        }),
{
    let e = ExprView::Prefixed(op, Box::new(right));
    let s = render_expr(e);
    let m = s.len() as int;
    assert forall|j: int| 0 <= j < m implies chars[i + j] == s[j] by {
        assert(chars.subrange(i, i + m)[j] == chars[i + j]);
    }
    reveal_strlit("(");
    reveal_strlit(")");
    let ot = op.text();
    let rr = render_expr(right);
    lemma_text_start(right);
    let a = i + 1;
    assert(ot.len() >= 1) by {
        reveal_strlit("!");
        reveal_strlit("-");
    }
    let c = a + ot.len();
    let d = c + rr.len();
    assert(s =~= "("@ + ot + rr + ")"@);
    assert(m == d + 1 - i);
    assert(chars[i] == '(') by {
        assert(chars[i + 0] == s[0]);
    }
    assert(chars[d] == ')') by {
        assert(chars[i + (d - i)] == s[d - i]);
    }
    assert(chars[c] == rr[0]) by {
        assert(chars[i + (c - i)] == s[c - i]);
    }
    assert(chars.subrange(a, c) =~= ot) by {
        assert forall|k: int| 0 <= k < ot.len() implies chars.subrange(a, c)[k] == ot[k] by {
            assert(chars[i + (1 + k)] == s[1 + k]);
        }
    }
    assert(chars.subrange(c, d) =~= rr) by {
        assert forall|k: int| 0 <= k < rr.len() implies chars.subrange(c, d)[k] == rr[k] by {
            assert(chars[i + (c - i + k)] == s[c - i + k]);
        }
    }
    lemma_lexeme_mark(chars, i);
    lemma_lexeme_operator(chars, a, op.kind);
    lemma_one_token(chars, a, op.kind, c);
    lemma_lexeme_mark(chars, d);
}

/// A part of a text that stands in a longer text stands there where the
/// text stands.
proof fn lemma_piece(chars: Seq<char>, i: int, whole: Seq<char>, from: int, part: Seq<char>)
    requires
        0 <= i,
        i + whole.len() <= chars.len(),
        chars.subrange(i, i + whole.len()) == whole,
        0 <= from,
        from + part.len() <= whole.len(),
        whole.subrange(from, from + part.len()) == part,
    ensures
        chars.subrange(i + from, i + from + part.len()) == part,
        forall|k: int| 0 <= k < part.len() ==> chars[i + from + k] == #[trigger] part[k],
{
    assert forall|k: int| 0 <= k < part.len() implies chars[i + from + k]
        == #[trigger] part[k] by {
        assert(chars.subrange(i, i + whole.len())[from + k] == chars[i + (from + k)]);
        assert(whole.subrange(from, from + part.len())[k] == whole[from + k]);
    }
    assert(chars.subrange(i + from, i + from + part.len()) =~= part);
}

/// The text of a renderable expression, where neither a word nor a number
/// goes on after it, is read as the tokens of the expression, and then
/// the tokens of what follows.
pub proof fn lemma_tokens_of_text(chars: Seq<char>, i: int, e: ExprView)
    requires
        renderable(e),
        0 <= i,
        i + render_expr(e).len() <= chars.len(),
        chars.subrange(i, i + render_expr(e).len()) == render_expr(e),
        ends_at(chars, i + render_expr(e).len()),
    ensures
        token_kinds(tokens_from(chars, i)) == kinds_of(e) + token_kinds(
            tokens_from(chars, i + render_expr(e).len()),
        ),
    decreases e, 1nat,
{
    let m = render_expr(e).len() as int;
    let rest = token_kinds(tokens_from(chars, i + m));
    match e {
        ExprView::Prefixed(op, right) => {
            lemma_prefixed_layout(chars, i, op, *right);
            let c = i + 1 + op.text().len();
            lemma_tokens_of_text(chars, c, *right);
            assert(token_kinds(tokens_from(chars, i)) =~= kinds_of(e) + rest);
        },
        ExprView::Infixed(left, op, right) => {
            lemma_infixed_layout(chars, i, *left, op, *right);
            let a = i + 1;
            let c = a + render_expr(*left).len() + op.text().len();
            lemma_tokens_of_text(chars, a, *left);
            lemma_tokens_of_text(chars, c, *right);
            assert(token_kinds(tokens_from(chars, i)) =~= kinds_of(e) + rest);
        },
        ExprView::Array(_, _) => {
            lemma_tokens_of_array(chars, i, e);
        },
        ExprView::FunctionCall(_, _, _) => {
            lemma_tokens_of_call(chars, i, e);
        },
        ExprView::Index(_, _, _) => {
            lemma_tokens_of_index(chars, i, e);
        },
        _ => {
            lemma_lexeme_atom(chars, i, e);
            lemma_one_token(chars, i, atom_kind(e), i + m);
            assert(kinds_of(e) =~= seq![atom_kind(e)]);
        },
    }
}

/// `lemma_tokens_of_text` for an array.
proof fn lemma_tokens_of_array(chars: Seq<char>, i: int, e: ExprView)
    requires
        e is Array,
        renderable(e),
        0 <= i,
        i + render_expr(e).len() <= chars.len(),
        chars.subrange(i, i + render_expr(e).len()) == render_expr(e),
    ensures
        token_kinds(tokens_from(chars, i)) == kinds_of(e) + token_kinds(
            tokens_from(chars, i + render_expr(e).len()),
        ),
    decreases e, 0nat,
{
    let s = render_expr(e);
    let elements = e->Array_1;
    let list = render_exprs(elements);
    reveal_strlit("[");
    reveal_strlit("]");
    assert(s =~= seq!['['] + list + seq![']']);
    let n = list.len() as int;
    let a = i + 1;
    let d = a + n;
    assert(s.subrange(0, 1) =~= seq!['[']);
    assert(s.subrange(1, 1 + n) =~= list);
    assert(s.subrange(1 + n, 2 + n) =~= seq![']']);
    lemma_piece(chars, i, s, 0, seq!['[']);
    lemma_piece(chars, i, s, 1, list);
    lemma_piece(chars, i, s, 1 + n, seq![']']);
    assert(chars[i + 0 + 0] == seq!['['][0]);
    assert(chars[i + (1 + n) + 0] == seq![']'][0]);
    lemma_lexeme_mark(chars, i);
    lemma_lexeme_mark(chars, d);
    lemma_tokens_of_list(chars, a, elements);
    assert(token_kinds(tokens_from(chars, i)) =~= kinds_of(e) + token_kinds(
        tokens_from(chars, d + 1),
    ));
}

/// `lemma_tokens_of_text` for a call.
proof fn lemma_tokens_of_call(chars: Seq<char>, i: int, e: ExprView)
    requires
        e is FunctionCall,
        renderable(e),
        0 <= i,
        i + render_expr(e).len() <= chars.len(),
        chars.subrange(i, i + render_expr(e).len()) == render_expr(e),
    ensures
        token_kinds(tokens_from(chars, i)) == kinds_of(e) + token_kinds(
            tokens_from(chars, i + render_expr(e).len()),
        ),
    decreases e, 0nat,
{
    let s = render_expr(e);
    let function = *e->FunctionCall_1;
    let arguments = e->FunctionCall_2;
    let head = render_expr(function);
    let list = render_exprs(arguments);
    reveal_strlit("(");
    reveal_strlit(")");
    assert(s =~= head + seq!['('] + list + seq![')']);
    let h = head.len() as int;
    let n = list.len() as int;
    let b = i + h;
    let a = b + 1;
    let d = a + n;
    assert(s.subrange(0, h) =~= head);
    assert(s.subrange(h, h + 1) =~= seq!['(']);
    assert(s.subrange(h + 1, h + 1 + n) =~= list);
    assert(s.subrange(h + 1 + n, h + 2 + n) =~= seq![')']);
    lemma_piece(chars, i, s, 0, head);
    lemma_piece(chars, i, s, h, seq!['(']);
    lemma_piece(chars, i, s, h + 1, list);
    lemma_piece(chars, i, s, h + 1 + n, seq![')']);
    assert(chars[i + h + 0] == seq!['('][0]);
    assert(chars[i + (h + 1 + n) + 0] == seq![')'][0]);
    lemma_lexeme_mark(chars, b);
    lemma_lexeme_mark(chars, d);
    lemma_tokens_of_text(chars, i, function);
    lemma_tokens_of_list(chars, a, arguments);
    assert(token_kinds(tokens_from(chars, i)) =~= kinds_of(e) + token_kinds(
        tokens_from(chars, d + 1),
    ));
}

/// `lemma_tokens_of_text` for an indexing.
proof fn lemma_tokens_of_index(chars: Seq<char>, i: int, e: ExprView)
    requires
        e is Index,
        renderable(e),
        0 <= i,
        i + render_expr(e).len() <= chars.len(),
        chars.subrange(i, i + render_expr(e).len()) == render_expr(e),
    ensures
        token_kinds(tokens_from(chars, i)) == kinds_of(e) + token_kinds(
            tokens_from(chars, i + render_expr(e).len()),
        ),
    decreases e, 0nat,
{
    let s = render_expr(e);
    let of = *e->Index_1;
    let index = *e->Index_2;
    let head = render_expr(of);
    let inner = render_expr(index);
    reveal_strlit("[");
    reveal_strlit("]");
    assert(s =~= head + seq!['['] + inner + seq![']']);
    let h = head.len() as int;
    let n = inner.len() as int;
    let b = i + h;
    let a = b + 1;
    let d = a + n;
    assert(s.subrange(0, h) =~= head);
    assert(s.subrange(h, h + 1) =~= seq!['[']);
    assert(s.subrange(h + 1, h + 1 + n) =~= inner);
    assert(s.subrange(h + 1 + n, h + 2 + n) =~= seq![']']);
    lemma_piece(chars, i, s, 0, head);
    lemma_piece(chars, i, s, h, seq!['[']);
    lemma_piece(chars, i, s, h + 1, inner);
    lemma_piece(chars, i, s, h + 1 + n, seq![']']);
    assert(chars[i + h + 0] == seq!['['][0]);
    assert(chars[i + (h + 1 + n) + 0] == seq![']'][0]);
    lemma_lexeme_mark(chars, b);
    lemma_lexeme_mark(chars, d);
    lemma_tokens_of_text(chars, i, of);
    lemma_tokens_of_text(chars, a, index);
    assert(token_kinds(tokens_from(chars, i)) =~= kinds_of(e) + token_kinds(
        tokens_from(chars, d + 1),
    ));
}

/// The text of a list of renderable expressions, where neither a word nor
/// a number goes on after it, is read as the tokens of the list, and then
/// the tokens of what follows.
pub proof fn lemma_tokens_of_list(chars: Seq<char>, i: int, es: Seq<ExprView>)
    requires
        all_renderable(es),
        0 <= i,
        i + render_exprs(es).len() <= chars.len(),
        chars.subrange(i, i + render_exprs(es).len()) == render_exprs(es),
        es.len() > 0 ==> ends_at(chars, i + render_exprs(es).len()),
    ensures
        token_kinds(tokens_from(chars, i)) == kinds_of_list(es) + token_kinds(
            tokens_from(chars, i + render_exprs(es).len()),
        ),
    decreases es, 0nat,
{
    let s = render_exprs(es);
    let rest = token_kinds(tokens_from(chars, i + s.len()));
    if es.len() == 0 {
        assert(kinds_of_list(es) + rest =~= rest);
    } else if es.len() == 1 {
        lemma_tokens_of_text(chars, i, es[0]);
    } else {
        let first = es.drop_last();
        let head = render_exprs(first);
        let tail = render_expr(es.last());
        reveal_strlit(", ");
        assert(s =~= head + seq![',', ' '] + tail);
        let h = head.len() as int;
        let a = i + h;
        assert(s.subrange(0, h) =~= head);
        assert(s.subrange(h, h + 2) =~= seq![',', ' ']);
        assert(s.subrange(h + 2, h + 2 + tail.len()) =~= tail);
        lemma_piece(chars, i, s, 0, head);
        lemma_piece(chars, i, s, h, seq![',', ' ']);
        lemma_piece(chars, i, s, h + 2, tail);
        assert(chars[i + h + 0] == seq![',', ' '][0]);
        assert(chars[i + h + 1] == seq![',', ' '][1]);
        assert(all_renderable(first));
        lemma_lexeme_mark(chars, a);
        lemma_blank_is_skipped(chars, a + 1);
        lemma_tokens_of_list(chars, i, first);
        lemma_tokens_of_text(chars, a + 2, es.last());
        assert(token_kinds(tokens_from(chars, i)) =~= kinds_of_list(es) + rest);
    }
}


/// The canonical text of a renderable expression is read as the tokens of
/// the expression, and no more.
pub proof fn lemma_tokens_of_rendering(e: ExprView)
    requires
        renderable(e),
    ensures
        token_kinds(tokens_of(render_expr(e))) == kinds_of(e),
{
    let chars = render_expr(e);
    assert(chars.subrange(0, chars.len() as int) =~= chars);
    lemma_tokens_of_text(chars, 0, e);
    assert(run_end(chars, chars.len() as int, CharClass::Blank) == chars.len());
    assert(lex_step(chars, chars.len() as int) is End);
    assert(tokens_from(chars, chars.len() as int) =~= Seq::<TokenView>::empty());
    assert(kinds_of(e) + token_kinds(Seq::<TokenView>::empty()) =~= kinds_of(e));
}

/// The canonical text of a renderable expression parses to the same tree,
/// but for the positions of the tokens.
pub proof fn lemma_round_trip(e: ExprView)
    requires
        renderable(e),
    ensures
        ({
            let toks = tokens_of(render_expr(e));
            let again = parse_expression(toks, 0, Precedence::Lowest);
            &&& again.result is Ok
            &&& same_tree(again.result->Ok_0, e)
            &&& again.pos == toks.len() - 1
        }),
{
    let toks = tokens_of(render_expr(e));
    lemma_tokens_of_rendering(e);
    lemma_renderable_is_plain(e);
    lemma_kinds_nonempty(e);
    let kinds = kinds_of(e);
    assert(toks.len() == kinds.len());
    assert forall|k: int| 0 <= k < kinds.len() implies (#[trigger] toks[0 + k]).kind
        == kinds[k] by {
        assert(token_kinds(toks)[k] == toks[k].kind);
    }
    lemma_reads(toks, 0, Precedence::Lowest, e);
    lemma_reread_is_same(toks, 0, e);
    assert(token_at(toks, kinds.len() - 1 + 1) is None);
}

/// The canonical text of a renderable expression parses, as a program, to
/// the one statement that holds the same tree.
pub proof fn lemma_round_trip_of_a_program(e: ExprView)
    requires
        renderable(e),
    ensures
        ({
            let toks = tokens_of(render_expr(e));
            let again = parse_expression(toks, 0, Precedence::Lowest);
            &&& again.result is Ok
            &&& same_tree(again.result->Ok_0, e)
            &&& parse_program(toks, 0) == Ok::<Seq<StmtView>, Seq<ParserErrorView>>(
                seq![StmtView::Expression(toks[0], again.result->Ok_0)],
            )
        }),
{
    let toks = tokens_of(render_expr(e));
    lemma_round_trip(e);
    lemma_tokens_of_rendering(e);
    lemma_renderable_is_plain(e);
    lemma_kinds_nonempty(e);
    lemma_first_kind(e);
    let again = parse_expression(toks, 0, Precedence::Lowest);
    let last = toks.len() - 1;
    assert(token_kinds(toks)[0] == toks[0].kind);
    let statement = StmtView::Expression(toks[0], again.result->Ok_0);
    assert(token_at(toks, last + 1) is None);
    assert(parse_expression_statement(toks, 0) == (Parsed { result: Ok(statement), pos: last }));
    assert(parse_statement(toks, 0) == parse_expression_statement(toks, 0));
    let empty = Collected { statements: Seq::empty(), errors: Seq::empty() };
    let one = Collected { statements: seq![statement], errors: Seq::empty() };
    assert(empty.statements.push(statement) =~= seq![statement]);
    assert(parse_statements(toks, last + 1, one) == one);
    assert(parse_statements(toks, 0, empty) == one);
}

/// The first token of a plain expression is one with which an expression
/// statement starts.
pub proof fn lemma_first_kind(e: ExprView)
    requires
        plain(e),
    ensures
        kinds_of(e).len() >= 1,
        !(kinds_of(e)[0] is Let),
        !(kinds_of(e)[0] is Return),
        !(kinds_of(e)[0] is Function),
        !(kinds_of(e)[0] is LeftCurly),
        !(kinds_of(e)[0] is ILLEGAL),
    decreases e,
{
    match e {
        ExprView::FunctionCall(_, function, _) => {
            lemma_first_kind(*function);
        },
        ExprView::Index(_, of, _) => {
            lemma_first_kind(*of);
        },
        _ => {},
    }
}

/// A token kind such as the tokenizer gives: a name is a name, an integer
/// is not negative, a float is well formed.
pub open spec fn token_ok(kind: TokenKindView) -> bool {
    match kind {
        TokenKind::Identifier(s) => is_name(s),
        TokenKind::Integer(i) => i >= 0,
        TokenKind::Float(s) => float_literal_ok(s),
        _ => true,
    }
}

/// Every token of the list is such as the tokenizer gives.
pub open spec fn tokens_ok(toks: Seq<TokenView>) -> bool {
    forall|k: int| 0 <= k < toks.len() ==> token_ok((#[trigger] toks[k]).kind)
}

/// An expression made of names, numbers, booleans and arrays, of prefix and
/// infix operations, and of calls and indexings, whatever its tokens.
pub open spec fn printable(e: ExprView) -> bool
    decreases e,
{
    match e {
        ExprView::Identifier(_) => true,
        ExprView::Integer(_) => true,
        ExprView::Float(_) => true,
        ExprView::Boolean(_) => true,
        ExprView::Prefixed(_, right) => printable(*right),
        ExprView::Infixed(left, _, right) => printable(*left) && printable(*right),
        ExprView::Array(_, elements) => forall|i: int|
            0 <= i < elements.len() ==> printable(#[trigger] elements[i]),
        ExprView::FunctionCall(_, function, arguments) => printable(*function) && forall|i: int|
            0 <= i < arguments.len() ==> printable(#[trigger] arguments[i]),
        ExprView::Index(_, of, index) => printable(*of) && printable(*index),
        _ => false,
    }
}

/// Every expression of the list is printable.
pub open spec fn all_printable(es: Seq<ExprView>) -> bool {
    forall|i: int| 0 <= i < es.len() ==> printable(#[trigger] es[i])
}

/// The token that the tokenizer reads at an index is such as it gives.
pub proof fn lemma_lexeme_is_ok(chars: Seq<char>, i: int)
    requires
        0 <= i < chars.len(),
        !is_whitespace(chars[i]),
    ensures
        match lexeme(chars, i).0 {
            Some(kind) => token_ok(kind),
            None => true,
        },
{
    let c = chars[i];
    if c == '+' || c == '-' || c == '*' || c == '/' || c == ';' || c == ':' || c == '(' || c == ')'
        || c == '{' || c == '}' || c == '[' || c == ']' || c == ',' || c == '.' || c == '=' || c
        == '!' || c == '>' || c == '<' || c == '"' {
    } else if is_word_char(c) {
        let end = run_end(chars, i + 1, CharClass::Word);
        lemma_run_end(chars, i + 1, CharClass::Word);
        let s = chars.subrange(i, end);
        assert forall|k: int| 0 <= k < s.len() implies is_word_char(#[trigger] s[k]) by {
            if k > 0 {
                assert(in_class(CharClass::Word, chars[i + k]));
            }
        }
        assert(s[0] == c);
    } else if is_numeric(c) {
        let end = run_end(chars, i + 1, CharClass::Number);
        lemma_run_end(chars, i + 1, CharClass::Number);
    }
}

/// The token that one step of the tokenizer reads is such as it gives.
pub proof fn lemma_step_is_ok(chars: Seq<char>, i: int)
    requires
        0 <= i,
    ensures
        match lex_step(chars, i) {
            LexStep::Token(token, _) => token_ok(token.kind),
            _ => true,
        },
    decreases chars.len() - i,
{
    let j = run_end(chars, i, CharClass::Blank);
    lemma_run_end(chars, i, CharClass::Blank);
    if j < chars.len() {
        if chars[j] == '/' && char_at(chars, j + 1) == Some('/') {
            let k = run_end(chars, j, CharClass::CommentBody);
            lemma_run_end(chars, j, CharClass::CommentBody);
            if i <= j < k <= chars.len() {
                lemma_step_is_ok(chars, k);
            }
        } else {
            lemma_lexeme_is_ok(chars, j);
        }
    }
}

/// Every token that the tokenizer reads from an index on is such as it
/// gives.
pub proof fn lemma_tokens_are_ok(chars: Seq<char>, i: int)
    requires
        0 <= i,
    ensures
        tokens_ok(tokens_from(chars, i)),
    decreases chars.len() - i,
{
    lemma_step_is_ok(chars, i);
    match lex_step(chars, i) {
        LexStep::Token(token, end) => {
            if i < end <= chars.len() {
                lemma_tokens_are_ok(chars, end);
                let rest = tokens_from(chars, end);
                let all = tokens_from(chars, i);
                assert(all == seq![token] + rest);
                assert forall|k: int| 0 <= k < all.len() implies token_ok(
                    (#[trigger] all[k]).kind,
                ) by {
                    if k > 0 {
                        assert(all[k] == rest[k - 1]);
                    }
                }
            }
        },
        _ => {},
    }
}

/// A parsed expression that is printable is renderable, if the tokens are
/// such as the tokenizer gives.
pub proof fn lemma_expression_is_renderable(toks: Seq<TokenView>, pos: int, precedence: Precedence)
    requires
        tokens_ok(toks),
        0 <= pos <= toks.len(),
    ensures
        match parse_expression(toks, pos, precedence).result {
            Ok(e) => printable(e) ==> renderable(e),
            Err(_) => true,
        },
    decreases toks.len() - pos, 7nat,
{
    let first = parse_term(toks, pos);
    lemma_term_is_renderable(toks, pos);
    match first.result {
        Ok(left) => {
            if forward(toks, pos, first.pos) {
                let all = parse_operators(toks, first.pos, precedence, left);
                match all.result {
                    Ok(e) => {
                        if printable(e) {
                            lemma_folded_is_renderable(toks, first.pos, precedence, left);
                        }
                    },
                    Err(_) => {},
                }
            }
        },
        Err(_) => {},
    }
}

/// A parsed term that is printable is renderable, if the tokens are such
/// as the tokenizer gives.
pub proof fn lemma_term_is_renderable(toks: Seq<TokenView>, pos: int)
    requires
        tokens_ok(toks),
        0 <= pos <= toks.len(),
    ensures
        match parse_term(toks, pos).result {
            Ok(e) => printable(e) ==> renderable(e),
            Err(_) => true,
        },
    decreases toks.len() - pos, 6nat,
{
    if pos < toks.len() {
        let t = toks[pos];
        assert(token_ok(t.kind));
        match t.kind {
            TokenKind::Bang | TokenKind::Minus => {
                lemma_expression_is_renderable(toks, pos + 1, Precedence::Prefix);
            },
            TokenKind::LeftParen => {
                lemma_expression_is_renderable(toks, pos + 1, Precedence::Lowest);
            },
            TokenKind::LeftBracket => {
                lemma_list_is_renderable(toks, pos, TokenKind::RightBracket);
                let elements = parse_expression_list(toks, pos, TokenKind::RightBracket);
                assert(parse_term(toks, pos) == parse_array(toks, pos));
                match elements.result {
                    Ok(es) => {
                        assert(parse_array(toks, pos).result == Ok::<ExprView, ParserErrorView>(
                            ExprView::Array(toks[pos], es),
                        ));
                    },
                    Err(_) => {},
                }
            },
            TokenKind::Function => {
                assert(parse_term(toks, pos) == crate::grammar::parse_function_expression(
                    toks,
                    pos,
                ));
            },
            _ => {},
        }
    }
}

/// A parsed list of expressions that are printable is a list of renderable
/// ones, if the tokens are such as the tokenizer gives.
pub proof fn lemma_list_is_renderable(toks: Seq<TokenView>, pos: int, end: TokenKindView)
    requires
        tokens_ok(toks),
        0 <= pos <= toks.len(),
    ensures
        match parse_expression_list(toks, pos, end).result {
            Ok(es) => all_printable(es) ==> all_renderable(es),
            Err(_) => true,
        },
    decreases toks.len() - pos, 4nat,
{
    if !kind_at(toks, pos + 1, end) && pos < toks.len() {
        lemma_expression_is_renderable(toks, pos + 1, Precedence::Lowest);
        let first = parse_expression(toks, pos + 1, Precedence::Lowest);
        match first.result {
            Ok(e) => {
                if forward(toks, pos + 1, first.pos) {
                    lemma_more_are_renderable(toks, first.pos, end, seq![e]);
                    let all = parse_more_expressions(toks, first.pos, end, seq![e]);
                    match all.result {
                        Ok(es) => {
                            if all_printable(es) {
                                assert(seq![e][0] == e);
                                assert(printable(e));
                                assert(all_renderable(seq![e]));
                            }
                        },
                        Err(_) => {},
                    }
                }
            },
            Err(_) => {},
        }
    }
}

/// Where the rest of a list was read after the expressions in `list` and
/// all are printable, those in `list` are too; and if they are renderable,
/// so are all.
pub proof fn lemma_more_are_renderable(
    toks: Seq<TokenView>,
    pos: int,
    end: TokenKindView,
    list: Seq<ExprView>,
)
    requires
        tokens_ok(toks),
        0 <= pos <= toks.len(),
    ensures
        match parse_more_expressions(toks, pos, end, list).result {
            Ok(es) => all_printable(es) ==> all_printable(list) && (all_renderable(list)
                ==> all_renderable(es)),
            Err(_) => true,
        },
    decreases toks.len() - pos, 4nat,
{
    if kind_at(toks, pos + 1, TokenKind::Comma) {
        lemma_expression_is_renderable(toks, pos + 2, Precedence::Lowest);
        let next = parse_expression(toks, pos + 2, Precedence::Lowest);
        match next.result {
            Ok(e) => {
                if forward(toks, pos + 2, next.pos) {
                    let longer = list.push(e);
                    lemma_more_are_renderable(toks, next.pos, end, longer);
                    let all = parse_more_expressions(toks, next.pos, end, longer);
                    match all.result {
                        Ok(es) => {
                            if all_printable(es) {
                                assert(printable(longer[list.len() as int]));
                                assert forall|i: int| 0 <= i < list.len() implies printable(
                                    #[trigger] list[i],
                                ) by {
                                    assert(longer[i] == list[i]);
                                }
                                if all_renderable(list) {
                                    assert forall|i: int|
                                        0 <= i < longer.len() implies renderable(
                                        #[trigger] longer[i],
                                    ) by {
                                        if i < list.len() {
                                            assert(longer[i] == list[i]);
                                        }
                                    }
                                }
                            }
                        },
                        Err(_) => {},
                    }
                }
            },
            Err(_) => {},
        }
    }
}

/// Where operators were folded into an expression and the result is
/// printable, the expression is too; and if it is renderable, so is the
/// result, if the tokens are such as the tokenizer gives.
pub proof fn lemma_folded_is_renderable(
    toks: Seq<TokenView>,
    pos: int,
    precedence: Precedence,
    left: ExprView,
)
    requires
        tokens_ok(toks),
        0 <= pos <= toks.len(),
        parse_operators(toks, pos, precedence, left).result is Ok,
        printable(parse_operators(toks, pos, precedence, left).result->Ok_0),
    ensures
        printable(left),
        renderable(left) ==> renderable(parse_operators(toks, pos, precedence, left).result->Ok_0),
    decreases toks.len() - pos, 5nat,
{
    if pos + 1 < toks.len() {
        let next = toks[pos + 1];
        if !(next.kind is SemiColon || !(precedence.rank() < Precedence::of(next.kind).rank())) {
            let folded = if is_binary_operator(next.kind) {
                parse_infixed(toks, pos + 1, left)
            } else if next.kind is LeftParen {
                parse_call(toks, pos + 1, left)
            } else {
                parse_index(toks, pos + 1, left)
            };
            assert(token_at(toks, pos + 1) == Some(next));
            match folded.result {
                Ok(f) => {
                    if forward(toks, pos + 1, folded.pos) {
                        assert(parse_operators(toks, pos, precedence, left) == parse_operators(
                            toks,
                            folded.pos,
                            precedence,
                            f,
                        ));
                        lemma_folded_is_renderable(toks, folded.pos, precedence, f);
                    } else {
                        assert(parse_operators(toks, pos, precedence, left) == folded);
                    }
                    lemma_one_fold_is_renderable(toks, pos, left);
                },
                Err(_) => {},
            }
        }
    }
}

/// What one operator, call or indexing makes of an expression: if it is
/// printable, the expression is too; and if the expression is renderable,
/// so is what was made, if the tokens are such as the tokenizer gives.
proof fn lemma_one_fold_is_renderable(toks: Seq<TokenView>, pos: int, left: ExprView)
    requires
        tokens_ok(toks),
        0 <= pos,
        pos + 1 < toks.len(),
    ensures
        match parse_infixed(toks, pos + 1, left).result {
            Ok(f) => is_binary_operator(toks[pos + 1].kind) && printable(f) ==> printable(left)
                && (renderable(left) ==> renderable(f)),
            Err(_) => true,
        },
        match parse_call(toks, pos + 1, left).result {
            Ok(f) => toks[pos + 1].kind is LeftParen && printable(f) ==> printable(left) && (
            renderable(left) ==> renderable(f)),
            Err(_) => true,
        },
        match parse_index(toks, pos + 1, left).result {
            Ok(f) => toks[pos + 1].kind is LeftBracket && printable(f) ==> printable(left) && (
            renderable(left) ==> renderable(f)),
            Err(_) => true,
        },
    decreases toks.len() - pos, 4nat,
{
    let next = toks[pos + 1];
    assert(token_at(toks, pos + 1) == Some(next));
    lemma_expression_is_renderable(toks, pos + 2, Precedence::of(next.kind));
    lemma_expression_is_renderable(toks, pos + 2, Precedence::Lowest);
    lemma_list_is_renderable(toks, pos + 1, TokenKind::RightParen);
    match parse_call(toks, pos + 1, left).result {
        Ok(f) => {
            if next.kind is LeftParen {
                let arguments = parse_expression_list(toks, pos + 1, TokenKind::RightParen);
                assert(arguments.result is Ok);
                assert(f == ExprView::FunctionCall(next, Box::new(left), arguments.result->Ok_0));
            }
        },
        Err(_) => {},
    }
    match parse_index(toks, pos + 1, left).result {
        Ok(f) => {
            if next.kind is LeftBracket {
                let index = parse_expression(toks, pos + 2, Precedence::Lowest);
                assert(index.result is Ok);
                assert(f == ExprView::Index(next, Box::new(left), Box::new(index.result->Ok_0)));
            }
        },
        Err(_) => {},
    }
    match parse_infixed(toks, pos + 1, left).result {
        Ok(f) => {
            let right = parse_expression(toks, pos + 2, Precedence::of(next.kind));
            assert(right.result is Ok);
            assert(f == ExprView::Infixed(Box::new(left), next, Box::new(right.result->Ok_0)));
        },
        Err(_) => {},
    }
}

/// Rendering a parsed expression and parsing the text again gives the same
/// tree, but for the positions of the tokens: this holds of every
/// expression that was parsed from a text and is made of names, numbers,
/// booleans and arrays, of prefix and infix operations, and of calls and
/// indexings.
pub proof fn lemma_round_trip_of_parsed(text: Seq<char>, precedence: Precedence, e: ExprView)
    requires
        parse_expression(tokens_of(text), 0, precedence).result == Ok::<ExprView, ParserErrorView>(
            e,
        ),
        printable(e),
    ensures
        ({
            let toks = tokens_of(render_expr(e));
            let again = parse_expression(toks, 0, Precedence::Lowest);
            &&& again.result is Ok
            &&& same_tree(again.result->Ok_0, e)
        }),
{
    lemma_tokens_are_ok(text, 0);
    lemma_expression_is_renderable(tokens_of(text), 0, precedence);
    lemma_round_trip(e);
}

} // verus!
