//! The grammar, as a function from tokens to a syntax tree.
//!
//! Every function here reads the tokens from an index on and yields what was
//! parsed, or the error that stopped it, together with the index at which
//! the parser then stands. The index is that of the current token; the
//! tokens before it are consumed.

use vstd::prelude::*;
use crate::ast::{BlockView, ExprView, StmtView};
use crate::precedence::Precedence;
use crate::token::{Token, TokenKind, TokenKindView, TokenView};

verus! {

/// What can go wrong in parsing. `S` is the type of the text in the tokens.
#[derive(Debug, PartialEq)]
pub enum ParserError<S = String> {
    /// A token that cannot stand where it stands.
    InvalidToken(Token<S>),
    /// A token of another kind than the grammar asks for.
    UnexpectedToken { expected: TokenKind<S>, actual: Token<S> },
    /// The input ended where the grammar asks for a token of a given kind.
    UnexpectedEOFWithExpectation(TokenKind<S>),
    /// The input ended in the middle of a statement.
    UnexpectedEOF,
}

/// A parse error as specifications see it.
pub type ParserErrorView = ParserError<Seq<char>>;

impl View for ParserError<String> {
    type V = ParserErrorView;

    open spec fn view(&self) -> ParserErrorView {
        match self {
            ParserError::InvalidToken(t) => ParserError::InvalidToken(t@),
            ParserError::UnexpectedToken { expected, actual } => ParserError::UnexpectedToken {
                expected: expected@,
                actual: actual@,
            },
            ParserError::UnexpectedEOFWithExpectation(k) => ParserError::UnexpectedEOFWithExpectation(
                k@,
            ),
            ParserError::UnexpectedEOF => ParserError::UnexpectedEOF,
        }
    }
}

/// What a parsing function yields: the tree or the error, and the index of
/// the token at which the parser stands afterwards.
pub struct Parsed<T> {
    pub result: Result<T, ParserErrorView>,
    pub pos: int,
}

/// A successful parse.
pub open spec fn parsed<T>(value: T, pos: int) -> Parsed<T> {
    Parsed { result: Ok(value), pos }
}

/// A failed parse.
pub open spec fn failed<T>(error: ParserErrorView, pos: int) -> Parsed<T> {
    Parsed { result: Err(error), pos }
}

/// The token at index `i`, if there is one.
pub open spec fn token_at(toks: Seq<TokenView>, i: int) -> Option<TokenView> {
    if 0 <= i < toks.len() {
        Some(toks[i])
    } else {
        None
    }
}

/// The index after `pos`, or `pos` itself at the end of the tokens.
pub open spec fn advance(toks: Seq<TokenView>, pos: int) -> int {
    if pos < toks.len() {
        pos + 1
    } else {
        pos
    }
}

/// Whether the token at index `i` exists and has the kind `kind`.
pub open spec fn kind_at(toks: Seq<TokenView>, i: int, kind: TokenKindView) -> bool {
    match token_at(toks, i) {
        Some(t) => t.kind == kind,
        None => false,
    }
}

/// The error for a token that should have had the kind `expected`: none if
/// it has that kind.
pub open spec fn expect_kind(found: Option<TokenView>, expected: TokenKindView) -> Option<
    ParserErrorView,
> {
    match found {
        Some(t) => if t.kind == expected {
            None
        } else {
            Some(ParserError::UnexpectedToken { expected, actual: t })
        },
        None => Some(ParserError::UnexpectedEOFWithExpectation(expected)),
    }
}

/// The error for a token that should have been an identifier: none if it is.
pub open spec fn expect_identifier(found: Option<TokenView>) -> Option<ParserErrorView> {
    match found {
        Some(t) => if t.kind is Identifier {
            None
        } else {
            Some(ParserError::InvalidToken(t))
        },
        None => Some(ParserError::UnexpectedEOF),
    }
}

/// The operators that stand between two operands.
pub open spec fn is_binary_operator(kind: TokenKindView) -> bool {
    kind is Plus || kind is Minus || kind is Slash || kind is Asterisk || kind is LessThan
        || kind is LessThanEquals || kind is GreaterThan || kind is GreaterThanEquals
        || kind is EqualsEquals || kind is BangEquals
}

/// `to` is an index of the tokens, or their length, not before `from`.
pub open spec fn forward(toks: Seq<TokenView>, from: int, to: int) -> bool {
    from <= to <= toks.len()
}

/// An expression from the token at `pos` on, taking in operators that bind
/// more tightly than `precedence`: one term, and the operators that follow
/// it. On success the parser stands at the last token of the expression.
pub open spec fn parse_expression(toks: Seq<TokenView>, pos: int, precedence: Precedence) -> Parsed<
    ExprView,
>
    decreases toks.len() - pos, 7nat,
{
    let first = parse_term(toks, pos);
    match first.result {
        Ok(left) => if forward(toks, pos, first.pos) {
            parse_operators(toks, first.pos, precedence, left)
        } else {
            first
        },
        Err(_) => first,
    }
}

/// A term from the token at `pos` on: a name, a literal, an array, an
/// expression in parentheses, a prefix operation or a function.
pub open spec fn parse_term(toks: Seq<TokenView>, pos: int) -> Parsed<ExprView>
    decreases toks.len() - pos, 6nat,
{
    match token_at(toks, pos) {
        None => failed(ParserError::UnexpectedEOF, pos),
        Some(t) => match t.kind {
            TokenKind::Identifier(_) => parsed(ExprView::Identifier(t), pos),
            TokenKind::Integer(_) => parsed(ExprView::Integer(t), pos),
            TokenKind::Float(_) => parsed(ExprView::Float(t), pos),
            TokenKind::True | TokenKind::False => parsed(ExprView::Boolean(t), pos),
            TokenKind::String(_) => parsed(ExprView::StringLiteral(t), pos),
            TokenKind::Bang | TokenKind::Minus => parse_prefixed(toks, pos),
            TokenKind::Function => parse_function_expression(toks, pos),
            TokenKind::LeftParen => parse_grouped(toks, pos),
            TokenKind::LeftBracket => parse_array(toks, pos),
            _ => failed(ParserError::InvalidToken(t), pos),
        },
    }
}

/// Folds into `left` the operators, calls and indexings that follow the
/// token at `pos` and bind more tightly than `precedence`, from left to
/// right. A semicolon ends the expression.
pub open spec fn parse_operators(
    toks: Seq<TokenView>,
    pos: int,
    precedence: Precedence,
    left: ExprView,
) -> Parsed<ExprView>
    decreases toks.len() - pos, 5nat,
{
    match token_at(toks, pos + 1) {
        None => parsed(left, pos),
        Some(next) => if next.kind is SemiColon || !(precedence.rank() < Precedence::of(
            next.kind,
        ).rank()) {
            parsed(left, pos)
        } else {
            let folded: Parsed<ExprView> = if is_binary_operator(next.kind) {
                parse_infixed(toks, pos + 1, left)
            } else if next.kind is LeftParen {
                parse_call(toks, pos + 1, left)
            } else {
                parse_index(toks, pos + 1, left)
            };
            match folded.result {
                Ok(e) => if forward(toks, pos + 1, folded.pos) {
                    parse_operators(toks, folded.pos, precedence, e)
                } else {
                    folded
                },
                Err(_) => folded,
            }
        },
    }
}

/// An infix operation whose operator is the token at `pos`: the right
/// operand takes in what binds more tightly than the operator itself.
pub open spec fn parse_infixed(toks: Seq<TokenView>, pos: int, left: ExprView) -> Parsed<ExprView>
    decreases toks.len() - pos, 5nat,
{
    match token_at(toks, pos) {
        None => failed(ParserError::UnexpectedEOF, pos),
        Some(op) => {
            let right = parse_expression(toks, pos + 1, Precedence::of(op.kind));
            match right.result {
                Ok(r) => parsed(ExprView::Infixed(Box::new(left), op, Box::new(r)), right.pos),
                Err(e) => failed(e, right.pos),
            }
        },
    }
}

/// A prefix operation whose operator, `!` or `-`, is the token at `pos`.
pub open spec fn parse_prefixed(toks: Seq<TokenView>, pos: int) -> Parsed<ExprView>
    decreases toks.len() - pos, 5nat,
{
    match token_at(toks, pos) {
        None => failed(ParserError::UnexpectedEOF, pos),
        Some(op) => if !(op.kind is Bang || op.kind is Minus) {
            failed(ParserError::InvalidToken(op), pos)
        } else {
            let right = parse_expression(toks, pos + 1, Precedence::Prefix);
            match right.result {
                Ok(r) => parsed(ExprView::Prefixed(op, Box::new(r)), right.pos),
                Err(e) => failed(e, right.pos),
            }
        },
    }
}

/// An expression in parentheses, the opening one at `pos`. The parentheses
/// do not appear in the tree.
pub open spec fn parse_grouped(toks: Seq<TokenView>, pos: int) -> Parsed<ExprView>
    decreases toks.len() - pos, 5nat,
{
    match expect_kind(token_at(toks, pos), TokenKind::LeftParen) {
        Some(e) => failed(e, pos),
        None => {
            let inner = parse_expression(toks, pos + 1, Precedence::Lowest);
            match inner.result {
                Ok(e) => match expect_kind(token_at(toks, inner.pos + 1), TokenKind::RightParen) {
                    Some(error) => failed(error, inner.pos),
                    None => parsed(e, inner.pos + 1),
                },
                Err(_) => inner,
            }
        },
    }
}

/// An array literal whose opening bracket is the token at `pos`.
pub open spec fn parse_array(toks: Seq<TokenView>, pos: int) -> Parsed<ExprView>
    decreases toks.len() - pos, 5nat,
{
    match expect_kind(token_at(toks, pos), TokenKind::LeftBracket) {
        Some(e) => failed(e, pos),
        None => {
            let elements = parse_expression_list(toks, pos, TokenKind::RightBracket);
            match elements.result {
                Ok(es) => parsed(ExprView::Array(toks[pos], es), elements.pos),
                Err(e) => failed(e, elements.pos),
            }
        },
    }
}

/// A call of `callee` whose opening parenthesis is the token at `pos`.
pub open spec fn parse_call(toks: Seq<TokenView>, pos: int, callee: ExprView) -> Parsed<ExprView>
    decreases toks.len() - pos, 5nat,
{
    match expect_kind(token_at(toks, pos), TokenKind::LeftParen) {
        Some(e) => failed(e, pos),
        None => {
            let arguments = parse_expression_list(toks, pos, TokenKind::RightParen);
            match arguments.result {
                Ok(args) => parsed(
                    ExprView::FunctionCall(toks[pos], Box::new(callee), args),
                    arguments.pos,
                ),
                Err(e) => failed(e, arguments.pos),
            }
        },
    }
}

/// An indexing of `of` whose opening bracket is the token at `pos`.
pub open spec fn parse_index(toks: Seq<TokenView>, pos: int, of: ExprView) -> Parsed<ExprView>
    decreases toks.len() - pos, 5nat,
{
    match expect_kind(token_at(toks, pos), TokenKind::LeftBracket) {
        Some(e) => failed(e, pos),
        None => {
            let index = parse_expression(toks, pos + 1, Precedence::Lowest);
            match index.result {
                Ok(i) => match expect_kind(
                    token_at(toks, index.pos + 1),
                    TokenKind::RightBracket,
                ) {
                    Some(error) => failed(error, index.pos),
                    None => parsed(
                        ExprView::Index(toks[pos], Box::new(of), Box::new(i)),
                        index.pos + 1,
                    ),
                },
                Err(e) => failed(e, index.pos),
            }
        },
    }
}

/// The expressions, separated by commas, between the opening token at `pos`
/// and a closing token of kind `end`, at which the parser then stands.
pub open spec fn parse_expression_list(toks: Seq<TokenView>, pos: int, end: TokenKindView) -> Parsed<
    Seq<ExprView>,
>
    decreases toks.len() - pos, 4nat,
{
    if kind_at(toks, pos + 1, end) {
        parsed(Seq::empty(), pos + 1)
    } else if !(0 <= pos < toks.len()) {
        failed(ParserError::UnexpectedEOF, pos)
    } else {
        let first = parse_expression(toks, pos + 1, Precedence::Lowest);
        match first.result {
            Ok(e) => if forward(toks, pos + 1, first.pos) {
                parse_more_expressions(toks, first.pos, end, seq![e])
            } else {
                failed(ParserError::UnexpectedEOF, first.pos)
            },
            Err(e) => failed(e, first.pos),
        }
    }
}

/// The rest of a list of expressions, after those in `list`: as long as a
/// comma follows the token at `pos`, one more expression.
pub open spec fn parse_more_expressions(
    toks: Seq<TokenView>,
    pos: int,
    end: TokenKindView,
    list: Seq<ExprView>,
) -> Parsed<Seq<ExprView>>
    decreases toks.len() - pos, 4nat,
{
    if kind_at(toks, pos + 1, TokenKind::Comma) {
        let next = parse_expression(toks, pos + 2, Precedence::Lowest);
        match next.result {
            Ok(e) => if forward(toks, pos + 2, next.pos) {
                parse_more_expressions(toks, next.pos, end, list.push(e))
            } else {
                failed(ParserError::UnexpectedEOF, next.pos)
            },
            Err(e) => failed(e, next.pos),
        }
    } else {
        match expect_kind(token_at(toks, pos + 1), end) {
            Some(e) => failed(e, pos),
            None => parsed(list, pos + 1),
        }
    }
}

/// The parameters of a function, in parentheses, the opening one at `pos`:
/// identifiers separated by commas. The parser then stands at the closing
/// parenthesis.
pub open spec fn parse_function_parameters(toks: Seq<TokenView>, pos: int) -> Parsed<
    Seq<TokenView>,
> {
    match expect_kind(token_at(toks, pos), TokenKind::LeftParen) {
        Some(e) => failed(e, pos),
        None => if kind_at(toks, pos + 1, TokenKind::RightParen) {
            parsed(Seq::empty(), pos + 1)
        } else {
            match expect_identifier(token_at(toks, pos + 1)) {
                Some(e) => failed(e, advance(toks, pos)),
                None => parse_more_parameters(toks, pos + 1, seq![toks[pos + 1]]),
            }
        },
    }
}

/// The rest of a parameter list, after those in `list`: as long as a comma
/// follows the token at `pos`, one more identifier.
pub open spec fn parse_more_parameters(toks: Seq<TokenView>, pos: int, list: Seq<TokenView>) -> Parsed<
    Seq<TokenView>,
>
    decreases toks.len() - pos,
{
    if kind_at(toks, pos + 1, TokenKind::Comma) {
        match expect_identifier(token_at(toks, pos + 2)) {
            Some(e) => failed(e, advance(toks, pos + 1)),
            None => parse_more_parameters(toks, pos + 2, list.push(toks[pos + 2])),
        }
    } else {
        match expect_kind(token_at(toks, pos + 1), TokenKind::RightParen) {
            Some(e) => failed(e, pos),
            None => parsed(list, pos + 1),
        }
    }
}

/// A function literal whose `fn` is the token at `pos`: the parameters and
/// the body. The parser then stands at the closing brace of the body.
pub open spec fn parse_function_expression(toks: Seq<TokenView>, pos: int) -> Parsed<ExprView>
    decreases toks.len() - pos, 5nat,
{
    match expect_kind(token_at(toks, pos), TokenKind::Function) {
        Some(e) => failed(e, pos),
        None => match expect_kind(token_at(toks, pos + 1), TokenKind::LeftParen) {
            Some(e) => failed(e, pos + 1),
            None => {
                let parameters = parse_function_parameters(toks, pos + 1);
                match parameters.result {
                    Err(e) => failed(e, parameters.pos),
                    Ok(names) => if forward(toks, pos + 1, parameters.pos) {
                        let body = parse_block(toks, advance(toks, parameters.pos));
                        match body.result {
                            Ok(b) => parsed(ExprView::Function(toks[pos], names, b), body.pos),
                            Err(e) => failed(e, body.pos),
                        }
                    } else {
                        failed(ParserError::UnexpectedEOF, parameters.pos)
                    },
                }
            },
        },
    }
}

/// A block whose opening brace is the token at `pos`: statements up to the
/// matching closing brace, at which the parser then stands.
pub open spec fn parse_block(toks: Seq<TokenView>, pos: int) -> Parsed<BlockView>
    decreases toks.len() - pos, 8nat,
{
    match expect_kind(token_at(toks, pos), TokenKind::LeftCurly) {
        Some(e) => failed(e, pos),
        None => {
            let body = parse_block_statements(toks, pos + 1, Seq::empty());
            match body.result {
                Ok(statements) => parsed(BlockView { token: toks[pos], statements }, body.pos),
                Err(e) => failed(e, body.pos),
            }
        },
    }
}

/// The statements of a block from the token at `pos` on, after those in
/// `list`, up to the closing brace.
pub open spec fn parse_block_statements(toks: Seq<TokenView>, pos: int, list: Seq<StmtView>) -> Parsed<
    Seq<StmtView>,
>
    decreases toks.len() - pos, 10nat,
{
    match token_at(toks, pos) {
        None => failed(ParserError::UnexpectedEOFWithExpectation(TokenKind::RightCurly), pos),
        Some(t) => if t.kind is RightCurly {
            parsed(list, pos)
        } else {
            let statement = parse_statement(toks, pos);
            match statement.result {
                Ok(s) => if forward(toks, pos, statement.pos) {
                    parse_block_statements(toks, advance(toks, statement.pos), list.push(s))
                } else {
                    failed(ParserError::UnexpectedEOF, statement.pos)
                },
                Err(e) => failed(e, statement.pos),
            }
        },
    }
}

/// The parser's place after an optional semicolon that follows the token at
/// `pos`.
pub open spec fn after_semicolon(toks: Seq<TokenView>, pos: int) -> int {
    if kind_at(toks, pos + 1, TokenKind::SemiColon) {
        pos + 1
    } else {
        pos
    }
}

/// A statement from the token at `pos` on: `let`, `return`, a function
/// declaration (`fn` and a name), a block, or else an expression.
pub open spec fn parse_statement(toks: Seq<TokenView>, pos: int) -> Parsed<StmtView>
    decreases toks.len() - pos, 9nat,
{
    match token_at(toks, pos) {
        None => failed(ParserError::UnexpectedEOF, pos),
        Some(t) => match t.kind {
            TokenKind::Let => parse_let_statement(toks, pos),
            TokenKind::Return => parse_return_statement(toks, pos),
            TokenKind::Function => if token_at(toks, pos + 1) is Some && token_at(
                toks,
                pos + 1,
            )->0.kind is Identifier {
                parse_function_declaration(toks, pos)
            } else {
                parse_expression_statement(toks, pos)
            },
            TokenKind::LeftCurly => {
                let block = parse_block(toks, pos);
                match block.result {
                    Ok(b) => parsed(StmtView::Block(b), block.pos),
                    Err(e) => failed(e, block.pos),
                }
            },
            TokenKind::ILLEGAL(_) => failed(ParserError::InvalidToken(t), pos),
            _ => parse_expression_statement(toks, pos),
        },
    }
}

/// `let`, a name, `=`, an expression and an optional semicolon.
pub open spec fn parse_let_statement(toks: Seq<TokenView>, pos: int) -> Parsed<StmtView>
    decreases toks.len() - pos, 8nat,
{
    match expect_kind(token_at(toks, pos), TokenKind::Let) {
        Some(e) => failed(e, pos),
        None => match expect_identifier(token_at(toks, pos + 1)) {
            Some(e) => failed(e, advance(toks, pos)),
            None => match expect_kind(token_at(toks, pos + 2), TokenKind::Equals) {
                Some(e) => failed(e, advance(toks, pos + 1)),
                None => {
                    let value = parse_expression(toks, pos + 3, Precedence::Lowest);
                    match value.result {
                        Ok(v) => parsed(
                            StmtView::Let(toks[pos], toks[pos + 1], v),
                            after_semicolon(toks, value.pos),
                        ),
                        Err(e) => failed(e, value.pos),
                    }
                },
            },
        },
    }
}

/// `return`, an expression and an optional semicolon.
pub open spec fn parse_return_statement(toks: Seq<TokenView>, pos: int) -> Parsed<StmtView>
    decreases toks.len() - pos, 8nat,
{
    match expect_kind(token_at(toks, pos), TokenKind::Return) {
        Some(e) => failed(e, pos),
        None => {
            let value = parse_expression(toks, pos + 1, Precedence::Lowest);
            match value.result {
                Ok(v) => parsed(StmtView::Return(toks[pos], v), after_semicolon(toks, value.pos)),
                Err(e) => failed(e, value.pos),
            }
        },
    }
}

/// An expression and an optional semicolon.
pub open spec fn parse_expression_statement(toks: Seq<TokenView>, pos: int) -> Parsed<StmtView>
    decreases toks.len() - pos, 8nat,
{
    match token_at(toks, pos) {
        None => failed(ParserError::UnexpectedEOF, pos),
        Some(t) => {
            let expression = parse_expression(toks, pos, Precedence::Lowest);
            match expression.result {
                Ok(e) => parsed(StmtView::Expression(t, e), after_semicolon(toks, expression.pos)),
                Err(e) => failed(e, expression.pos),
            }
        },
    }
}

/// `fn`, a name, the parameters and the body.
pub open spec fn parse_function_declaration(toks: Seq<TokenView>, pos: int) -> Parsed<StmtView>
    decreases toks.len() - pos, 8nat,
{
    match expect_kind(token_at(toks, pos), TokenKind::Function) {
        Some(e) => failed(e, pos),
        None => match expect_identifier(token_at(toks, pos + 1)) {
            Some(e) => failed(e, advance(toks, pos)),
            None => match expect_kind(token_at(toks, pos + 2), TokenKind::LeftParen) {
                Some(e) => failed(e, pos + 1),
                None => {
                    let parameters = parse_function_parameters(toks, pos + 2);
                    match parameters.result {
                        Err(e) => failed(e, parameters.pos),
                        Ok(names) => if forward(toks, pos + 2, parameters.pos) {
                            let body = parse_block(toks, advance(toks, parameters.pos));
                            match body.result {
                                Ok(b) => parsed(
                                    StmtView::Function(toks[pos], toks[pos + 1], names, b),
                                    body.pos,
                                ),
                                Err(e) => failed(e, body.pos),
                            }
                        } else {
                            failed(ParserError::UnexpectedEOF, parameters.pos)
                        },
                    }
                },
            },
        },
    }
}

/// What parsing a program yields: the statements that parsed and the errors
/// of those that did not.
pub struct Collected {
    pub statements: Seq<StmtView>,
    pub errors: Seq<ParserErrorView>,
}

/// Parses statements from the token at `pos` on to the end of the tokens.
/// After a statement, and after an error, the parser moves one token on.
pub open spec fn parse_statements(toks: Seq<TokenView>, pos: int, so_far: Collected) -> Collected
    decreases toks.len() - pos,
{
    if !(0 <= pos < toks.len()) {
        so_far
    } else {
        let statement = parse_statement(toks, pos);
        let next = Collected {
            statements: match statement.result {
                Ok(s) => so_far.statements.push(s),
                Err(_) => so_far.statements,
            },
            errors: match statement.result {
                Ok(_) => so_far.errors,
                Err(e) => so_far.errors.push(e),
            },
        };
        if forward(toks, pos, statement.pos) {
            parse_statements(toks, advance(toks, statement.pos), next)
        } else {
            next
        }
    }
}

/// The program that the tokens from index `pos` on spell, or else every
/// error that was met on the way.
pub open spec fn parse_program(toks: Seq<TokenView>, pos: int) -> Result<
    Seq<StmtView>,
    Seq<ParserErrorView>,
> {
    let all = parse_statements(toks, pos, Collected { statements: Seq::empty(), errors: Seq::empty() });
    if all.errors.len() > 0 {
        Err(all.errors)
    } else {
        Ok(all.statements)
    }
}

} // verus!
