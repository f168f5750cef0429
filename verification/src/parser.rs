//! The parser: recursive descent with precedence climbing over the tokens
//! of a text. Every function is held to the grammar of [`crate::grammar`].

use vstd::prelude::*;
use crate::ast::{
    block_ok, expr_ok, exprs_ok, exprs_view, names_ok, names_view, stmt_ok, stmts_ok, stmts_view,
    Block, BlockView, ExprView, Expression, Identifier, Program, Statement, StmtView,
};
use crate::grammar::{
    advance, after_semicolon, expect_identifier, expect_kind, forward, kind_at,
    parse_array, parse_block, parse_block_statements, parse_call, parse_expression,
    parse_expression_list, parse_expression_statement, parse_function_declaration,
    parse_function_expression, parse_function_parameters, parse_grouped, parse_index,
    parse_infixed, parse_let_statement, parse_more_expressions, parse_more_parameters,
    parse_operators, parse_prefixed, parse_program, parse_return_statement, parse_statement,
    parse_statements, parse_term, token_at, Collected, Parsed, ParserError, ParserErrorView,
};
use crate::lexer::Lexer;
use crate::precedence::Precedence;
use crate::token::{token_views, Token, TokenKind, TokenView};

verus! {

/// The views of a list of parse errors.
pub open spec fn error_views(errors: Seq<ParserError>) -> Seq<ParserErrorView> {
    Seq::new(errors.len(), |i: int| errors[i]@)
}

/// What a parsing function handed back, as the grammar states it.
pub open spec fn expr_parsed(r: (Result<Expression, ParserError>, usize)) -> Parsed<ExprView> {
    Parsed {
        result: match r.0 {
            Ok(e) => Ok(e@),
            Err(e) => Err(e@),
        },
        pos: r.1 as int,
    }
}

/// What a parsing function handed back, as the grammar states it.
pub open spec fn exprs_parsed(r: (Result<Vec<Box<Expression>>, ParserError>, usize)) -> Parsed<
    Seq<ExprView>,
> {
    Parsed {
        result: match r.0 {
            Ok(es) => Ok(exprs_view(es@)),
            Err(e) => Err(e@),
        },
        pos: r.1 as int,
    }
}

/// What a parsing function handed back, as the grammar states it.
pub open spec fn names_parsed(r: (Result<Vec<Identifier>, ParserError>, usize)) -> Parsed<
    Seq<TokenView>,
> {
    Parsed {
        result: match r.0 {
            Ok(names) => Ok(names_view(names@)),
            Err(e) => Err(e@),
        },
        pos: r.1 as int,
    }
}

/// What a parsing function handed back, as the grammar states it.
pub open spec fn block_parsed(r: (Result<Block, ParserError>, usize)) -> Parsed<BlockView> {
    Parsed {
        result: match r.0 {
            Ok(b) => Ok(b@),
            Err(e) => Err(e@),
        },
        pos: r.1 as int,
    }
}

/// What a parsing function handed back, as the grammar states it.
pub open spec fn stmts_parsed(r: (Result<Vec<Box<Statement>>, ParserError>, usize)) -> Parsed<
    Seq<StmtView>,
> {
    Parsed {
        result: match r.0 {
            Ok(ss) => Ok(stmts_view(ss@)),
            Err(e) => Err(e@),
        },
        pos: r.1 as int,
    }
}

/// What a parsing function handed back, as the grammar states it.
pub open spec fn stmt_parsed(r: (Result<Statement, ParserError>, usize)) -> Parsed<StmtView> {
    Parsed {
        result: match r.0 {
            Ok(s) => Ok(s@),
            Err(e) => Err(e@),
        },
        pos: r.1 as int,
    }
}

/// What parsing a program handed back, as the grammar states it.
pub open spec fn program_parsed(r: Result<Program, Vec<ParserError>>) -> Result<
    Seq<StmtView>,
    Seq<ParserErrorView>,
> {
    match r {
        Ok(p) => Ok(p@),
        Err(errors) => Err(error_views(errors@)),
    }
}

/// The parser: the tokens of a text and the index of the current one.
#[derive(Debug)]
pub struct Parser {
    tokens: Vec<Token>,
    pos: usize,
}

impl Parser {
    /// The tokens that the parser reads.
    pub closed spec fn tokens(&self) -> Seq<TokenView> {
        token_views(self.tokens@)
    }

    /// The index of the current token.
    pub closed spec fn place(&self) -> int {
        self.pos as int
    }

    /// The parser stands at a token or at the end of the tokens.
    pub open spec fn wf(&self) -> bool {
        0 <= self.place() <= self.tokens().len() <= usize::MAX
    }

    /// `pos` is the index of a token or the end of the tokens.
    pub open spec fn within(&self, pos: usize) -> bool {
        pos <= self.tokens().len() <= usize::MAX
    }

    /// A parser over the tokens that `lexer` has still to give. Every
    /// number among them has to be well formed.
    pub fn new(lexer: Lexer) -> (r: Self)
        requires
            lexer.wf(),
            lexer.numbers_ok(),
        ensures
            r.wf(),
            r.tokens() == lexer.remaining(),
            r.place() == 0,
    {
        let mut lexer = lexer;
        match lexer.collect() {
            Some(tokens) => {
                let _ = tokens.len();
                Parser { tokens, pos: 0 }
            },
            None => Parser { tokens: Vec::new(), pos: 0 },
        }
    }

    /// A parser over the tokens that `lexer` has still to give, or `None`
    /// if a number among them is not well formed.
    pub fn try_new(lexer: Lexer) -> (r: Option<Self>)
        requires
            lexer.wf(),
        ensures
            r is Some <==> lexer.numbers_ok(),
            r is Some ==> r->0.wf() && r->0.tokens() == lexer.remaining() && r->0.place() == 0,
    {
        let mut lexer = lexer;
        match lexer.collect() {
            Some(tokens) => {
                let _ = tokens.len();
                Some(Parser { tokens, pos: 0 })
            },
            None => None,
        }
    }

    /// The token `offset` places after `pos`, if there is one.
    fn at(&self, pos: usize, offset: usize) -> (r: Option<&Token>)
        ensures
            match r {
                Some(t) => token_at(self.tokens(), pos + offset) == Some(t@),
                None => token_at(self.tokens(), pos + offset) is None,
            },
    {
        let n = self.tokens.len();
        if pos < n && offset < n - pos {
            Some(&self.tokens[pos + offset])
        } else {
            None
        }
    }

    /// Whether the token `offset` places after `pos` has the kind `kind`.
    fn is_kind(&self, pos: usize, offset: usize, kind: &TokenKind) -> (r: bool)
        ensures
            r == kind_at(self.tokens(), pos + offset, kind@),
    {
        match self.at(pos, offset) {
            Some(t) => t.kind.same(kind),
            None => false,
        }
    }

    /// The index after `pos`, or `pos` itself at the end of the tokens.
    fn step(&self, pos: usize) -> (r: usize)
        ensures
            r == advance(self.tokens(), pos as int),
    {
        if pos < self.tokens.len() {
            pos + 1
        } else {
            pos
        }
    }

    /// The error for a token that should have had the kind `expected`.
    fn expect_token_kind(found: Option<&Token>, expected: TokenKind) -> (r: Option<ParserError>)
        ensures
            match r {
                Some(e) => expect_kind(
                    match found {
                        Some(t) => Some(t@),
                        None => None,
                    },
                    expected@,
                ) == Some(e@),
                None => expect_kind(
                    match found {
                        Some(t) => Some(t@),
                        None => None,
                    },
                    expected@,
                ) is None,
            },
    {
        match found {
            Some(token) => if token.kind.same(&expected) {
                None
            } else {
                Some(ParserError::UnexpectedToken { expected, actual: token.dup() })
            },
            None => Some(ParserError::UnexpectedEOFWithExpectation(expected)),
        }
    }

    /// The error for a token that should have been an identifier.
    fn expect_name(found: Option<&Token>) -> (r: Option<ParserError>)
        ensures
            match r {
                Some(e) => expect_identifier(
                    match found {
                        Some(t) => Some(t@),
                        None => None,
                    },
                ) == Some(e@),
                None => expect_identifier(
                    match found {
                        Some(t) => Some(t@),
                        None => None,
                    },
                ) is None,
            },
    {
        match found {
            Some(token) => match &token.kind {
                TokenKind::Identifier(_) => None,
                _ => Some(ParserError::InvalidToken(token.dup())),
            },
            None => Some(ParserError::UnexpectedEOF),
        }
    }

    /// Parses an expression.
    fn parse_expression(&self, pos: usize, precedence: Precedence) -> (r: (
        Result<Expression, ParserError>,
        usize,
    ))
        requires
            self.within(pos),
        ensures
            expr_parsed(r) == parse_expression(self.tokens(), pos as int, precedence),
            forward(self.tokens(), pos as int, r.1 as int),
            r.0 is Ok ==> expr_ok(r.0->Ok_0@),
        decreases self.tokens().len() - pos, 7nat,
    {
        let first = self.parse_term(pos);
        match first.0 {
            Ok(left) => self.parse_operators(first.1, precedence, left),
            Err(e) => (Err(e), first.1),
        }
    }

    /// Parses a term: what an expression starts with.
    fn parse_term(&self, pos: usize) -> (r: (Result<Expression, ParserError>, usize))
        requires
            self.within(pos),
        ensures
            expr_parsed(r) == parse_term(self.tokens(), pos as int),
            forward(self.tokens(), pos as int, r.1 as int),
            r.0 is Ok ==> expr_ok(r.0->Ok_0@),
        decreases self.tokens().len() - pos, 6nat,
    {
        let token = match self.at(pos, 0) {
            None => {
                return (Err(ParserError::UnexpectedEOF), pos);
            },
            Some(t) => t,
        };
        match &token.kind {
            TokenKind::Identifier(_) => (Ok(Expression::new_identifier(token.dup())), pos),
            TokenKind::Integer(_) => (Ok(Expression::new_integer(token.dup())), pos),
            TokenKind::Float(_) => (Ok(Expression::new_float(token.dup())), pos),
            TokenKind::True | TokenKind::False => (Ok(Expression::new_boolean(token.dup())), pos),
            TokenKind::String(_) => (Ok(Expression::new_string(token.dup())), pos),
            TokenKind::Bang | TokenKind::Minus => self.parse_prefixed_expression(pos),
            TokenKind::Function => self.parse_function_expression(pos),
            TokenKind::LeftParen => self.parse_grouped_expression(pos),
            TokenKind::LeftBracket => self.parse_array(pos),
            _ => (Err(ParserError::InvalidToken(token.dup())), pos),
        }
    }

    /// Folds the operators that follow into `left`.
    #[verifier::loop_isolation(false)]
    fn parse_operators(&self, pos: usize, precedence: Precedence, left: Expression) -> (r: (
        Result<Expression, ParserError>,
        usize,
    ))
        requires
            self.within(pos),
            expr_ok(left@),
        ensures
            expr_parsed(r) == parse_operators(self.tokens(), pos as int, precedence, left@),
            forward(self.tokens(), pos as int, r.1 as int),
            r.0 is Ok ==> expr_ok(r.0->Ok_0@),
        decreases self.tokens().len() - pos, 5nat,
    {
        let ghost target = parse_operators(self.tokens(), pos as int, precedence, left@);
        let mut left = left;
        let mut at = pos;
        loop
            invariant
                pos <= at <= self.tokens().len(),
                expr_ok(left@),
                parse_operators(self.tokens(), at as int, precedence, left@) == target,
            decreases self.tokens().len() - at,
        {
            let next = match self.at(at, 1) {
                None => {
                    return (Ok(left), at);
                },
                Some(t) => t,
            };
            let binds = precedence.lower_than(&Precedence::of_kind(&next.kind));
            if matches!(next.kind, TokenKind::SemiColon) || !binds {
                return (Ok(left), at);
            }
            let folded = match &next.kind {
                TokenKind::Plus
                | TokenKind::Minus
                | TokenKind::Slash
                | TokenKind::Asterisk
                | TokenKind::LessThan
                | TokenKind::LessThanEquals
                | TokenKind::GreaterThan
                | TokenKind::GreaterThanEquals
                | TokenKind::EqualsEquals
                | TokenKind::BangEquals => self.parse_infixed_expression(at + 1, left),
                TokenKind::LeftParen => self.parse_function_call(at + 1, left),
                _ => self.parse_index(at + 1, left),
            };
            match folded.0 {
                Ok(e) => {
                    left = e;
                    at = folded.1;
                },
                Err(e) => {
                    return (Err(e), folded.1);
                },
            }
        }
    }

    /// Parses an infixed expression.
    fn parse_infixed_expression(&self, pos: usize, left: Expression) -> (r: (
        Result<Expression, ParserError>,
        usize,
    ))
        requires
            self.within(pos),
            expr_ok(left@),
        ensures
            expr_parsed(r) == parse_infixed(self.tokens(), pos as int, left@),
            forward(self.tokens(), pos as int, r.1 as int),
            r.0 is Ok ==> expr_ok(r.0->Ok_0@),
        decreases self.tokens().len() - pos, 5nat,
    {
        let op = match self.at(pos, 0) {
            None => {
                return (Err(ParserError::UnexpectedEOF), pos);
            },
            Some(t) => t,
        };
        let right = self.parse_expression(pos + 1, Precedence::of_kind(&op.kind));
        match right.0 {
            Ok(e) => (
                Ok(Expression::new_infixed(op.dup(), Box::new(left), Box::new(e))),
                right.1,
            ),
            Err(e) => (Err(e), right.1),
        }
    }

    /// Parses a prefixed expression.
    fn parse_prefixed_expression(&self, pos: usize) -> (r: (
        Result<Expression, ParserError>,
        usize,
    ))
        requires
            self.within(pos),
        ensures
            expr_parsed(r) == parse_prefixed(self.tokens(), pos as int),
            forward(self.tokens(), pos as int, r.1 as int),
            r.0 is Ok ==> expr_ok(r.0->Ok_0@),
        decreases self.tokens().len() - pos, 5nat,
    {
        let op = match self.at(pos, 0) {
            None => {
                return (Err(ParserError::UnexpectedEOF), pos);
            },
            Some(t) => t,
        };
        if !matches!(op.kind, TokenKind::Bang | TokenKind::Minus) {
            return (Err(ParserError::InvalidToken(op.dup())), pos);
        }
        let right = self.parse_expression(pos + 1, Precedence::Prefix);
        match right.0 {
            Ok(e) => (Ok(Expression::new_prefixed(op.dup(), Box::new(e))), right.1),
            Err(e) => (Err(e), right.1),
        }
    }

    /// Parses a grouped expression (wrapped in parentheses).
    fn parse_grouped_expression(&self, pos: usize) -> (r: (Result<Expression, ParserError>, usize))
        requires
            self.within(pos),
        ensures
            expr_parsed(r) == parse_grouped(self.tokens(), pos as int),
            forward(self.tokens(), pos as int, r.1 as int),
            r.0 is Ok ==> expr_ok(r.0->Ok_0@),
        decreases self.tokens().len() - pos, 5nat,
    {
        match Self::expect_token_kind(self.at(pos, 0), TokenKind::LeftParen) {
            Some(e) => {
                return (Err(e), pos);
            },
            None => {},
        }
        let inner = self.parse_expression(pos + 1, Precedence::Lowest);
        match inner.0 {
            Ok(e) => match Self::expect_token_kind(self.at(inner.1, 1), TokenKind::RightParen) {
                Some(error) => (Err(error), inner.1),
                None => (Ok(e), inner.1 + 1),
            },
            Err(e) => (Err(e), inner.1),
        }
    }

    /// Parses an array literal.
    fn parse_array(&self, pos: usize) -> (r: (Result<Expression, ParserError>, usize))
        requires
            self.within(pos),
        ensures
            expr_parsed(r) == parse_array(self.tokens(), pos as int),
            forward(self.tokens(), pos as int, r.1 as int),
            r.0 is Ok ==> expr_ok(r.0->Ok_0@),
        decreases self.tokens().len() - pos, 5nat,
    {
        match Self::expect_token_kind(self.at(pos, 0), TokenKind::LeftBracket) {
            Some(e) => {
                return (Err(e), pos);
            },
            None => {},
        }
        let token = self.tokens[pos].dup();
        let elements = self.parse_expression_list(pos, TokenKind::RightBracket);
        match elements.0 {
            Ok(es) => (Ok(Expression::new_array(token, es)), elements.1),
            Err(e) => (Err(e), elements.1),
        }
    }

    /// Parses a function call expression.
    fn parse_function_call(&self, pos: usize, callee: Expression) -> (r: (
        Result<Expression, ParserError>,
        usize,
    ))
        requires
            self.within(pos),
            expr_ok(callee@),
        ensures
            expr_parsed(r) == parse_call(self.tokens(), pos as int, callee@),
            forward(self.tokens(), pos as int, r.1 as int),
            r.0 is Ok ==> expr_ok(r.0->Ok_0@),
        decreases self.tokens().len() - pos, 5nat,
    {
        match Self::expect_token_kind(self.at(pos, 0), TokenKind::LeftParen) {
            Some(e) => {
                return (Err(e), pos);
            },
            None => {},
        }
        let token = self.tokens[pos].dup();
        let arguments = self.parse_expression_list(pos, TokenKind::RightParen);
        match arguments.0 {
            Ok(args) => (
                Ok(Expression::new_function_call(token, Box::new(callee), args)),
                arguments.1,
            ),
            Err(e) => (Err(e), arguments.1),
        }
    }

    /// Parses an index expression.
    fn parse_index(&self, pos: usize, of: Expression) -> (r: (
        Result<Expression, ParserError>,
        usize,
    ))
        requires
            self.within(pos),
            expr_ok(of@),
        ensures
            expr_parsed(r) == parse_index(self.tokens(), pos as int, of@),
            forward(self.tokens(), pos as int, r.1 as int),
            r.0 is Ok ==> expr_ok(r.0->Ok_0@),
        decreases self.tokens().len() - pos, 5nat,
    {
        match Self::expect_token_kind(self.at(pos, 0), TokenKind::LeftBracket) {
            Some(e) => {
                return (Err(e), pos);
            },
            None => {},
        }
        let token = self.tokens[pos].dup();
        let index = self.parse_expression(pos + 1, Precedence::Lowest);
        match index.0 {
            Ok(i) => match Self::expect_token_kind(self.at(index.1, 1), TokenKind::RightBracket) {
                Some(error) => (Err(error), index.1),
                None => (Ok(Expression::new_index(token, Box::new(of), Box::new(i))), index.1 + 1),
            },
            Err(e) => (Err(e), index.1),
        }
    }

    /// Parses a list of expressions separated by commas.
    /// `end` is the token kind that marks the end of the list.
    #[verifier::loop_isolation(false)]
    fn parse_expression_list(&self, pos: usize, end: TokenKind) -> (r: (
        Result<Vec<Box<Expression>>, ParserError>,
        usize,
    ))
        requires
            self.within(pos),
        ensures
            exprs_parsed(r) == parse_expression_list(self.tokens(), pos as int, end@),
            forward(self.tokens(), pos as int, r.1 as int),
            r.0 is Ok ==> exprs_ok(exprs_view(r.0->Ok_0@)),
        decreases self.tokens().len() - pos, 4nat,
    {
        let mut list: Vec<Box<Expression>> = Vec::new();
        if self.is_kind(pos, 1, &end) {
            assert(exprs_view(list@) =~= Seq::<ExprView>::empty());
            return (Ok(list), pos + 1);
        }
        if pos >= self.tokens.len() {
            return (Err(ParserError::UnexpectedEOF), pos);
        }
        let first = self.parse_expression(pos + 1, Precedence::Lowest);
        let mut at = first.1;
        match first.0 {
            Ok(e) => {
                list.push(Box::new(e));
                assert(exprs_view(list@) =~= seq![e@]);
            },
            Err(e) => {
                return (Err(e), first.1);
            },
        }
        let ghost target = parse_expression_list(self.tokens(), pos as int, end@);
        loop
            invariant
                pos < at <= self.tokens().len(),
                exprs_ok(exprs_view(list@)),
                parse_more_expressions(self.tokens(), at as int, end@, exprs_view(list@))
                    == target,
            decreases self.tokens().len() - at,
        {
            if self.is_kind(at, 1, &TokenKind::Comma) {
                let next = self.parse_expression(at + 2, Precedence::Lowest);
                match next.0 {
                    Ok(e) => {
                        let ghost before = exprs_view(list@);
                        list.push(Box::new(e));
                        assert(exprs_view(list@) =~= before.push(e@));
                        at = next.1;
                    },
                    Err(e) => {
                        return (Err(e), next.1);
                    },
                }
            } else {
                return match Self::expect_token_kind(self.at(at, 1), end) {
                    Some(e) => (Err(e), at),
                    None => (Ok(list), at + 1),
                };
            }
        }
    }

    /// Parses the parameters of a function.
    #[verifier::loop_isolation(false)]
    fn parse_function_parameters(&self, pos: usize) -> (r: (
        Result<Vec<Identifier>, ParserError>,
        usize,
    ))
        requires
            self.within(pos),
        ensures
            names_parsed(r) == parse_function_parameters(self.tokens(), pos as int),
            forward(self.tokens(), pos as int, r.1 as int),
            r.0 is Ok ==> names_ok(names_view(r.0->Ok_0@)),
    {
        match Self::expect_token_kind(self.at(pos, 0), TokenKind::LeftParen) {
            Some(e) => {
                return (Err(e), pos);
            },
            None => {},
        }
        let mut params: Vec<Identifier> = Vec::new();
        if self.is_kind(pos, 1, &TokenKind::RightParen) {
            assert(names_view(params@) =~= Seq::<TokenView>::empty());
            return (Ok(params), pos + 1);
        }
        match Self::expect_name(self.at(pos, 1)) {
            Some(e) => {
                return (Err(e), self.step(pos));
            },
            None => {},
        }
        params.push(Identifier::new(self.tokens[pos + 1].dup()));
        assert(names_view(params@) =~= seq![self.tokens()[pos + 1]]);
        let mut at = pos + 1;
        let ghost target = parse_function_parameters(self.tokens(), pos as int);
        loop
            invariant
                pos < at < self.tokens().len(),
                names_ok(names_view(params@)),
                parse_more_parameters(self.tokens(), at as int, names_view(params@)) == target,
            decreases self.tokens().len() - at,
        {
            if self.is_kind(at, 1, &TokenKind::Comma) {
                match Self::expect_name(self.at(at, 2)) {
                    Some(e) => {
                        return (Err(e), self.step(at + 1));
                    },
                    None => {},
                }
                let ghost before = names_view(params@);
                params.push(Identifier::new(self.tokens[at + 2].dup()));
                assert(names_view(params@) =~= before.push(self.tokens()[at + 2]));
                at = at + 2;
            } else {
                return match Self::expect_token_kind(self.at(at, 1), TokenKind::RightParen) {
                    Some(e) => (Err(e), at),
                    None => (Ok(params), at + 1),
                };
            }
        }
    }

    /// Parses a function literal.
    fn parse_function_expression(&self, pos: usize) -> (r: (
        Result<Expression, ParserError>,
        usize,
    ))
        requires
            self.within(pos),
        ensures
            expr_parsed(r) == parse_function_expression(self.tokens(), pos as int),
            forward(self.tokens(), pos as int, r.1 as int),
            r.0 is Ok ==> expr_ok(r.0->Ok_0@),
        decreases self.tokens().len() - pos, 5nat,
    {
        match Self::expect_token_kind(self.at(pos, 0), TokenKind::Function) {
            Some(e) => {
                return (Err(e), pos);
            },
            None => {},
        }
        let token = self.tokens[pos].dup();
        match Self::expect_token_kind(self.at(pos, 1), TokenKind::LeftParen) {
            Some(e) => {
                return (Err(e), pos + 1);
            },
            None => {},
        }
        let parameters = self.parse_function_parameters(pos + 1);
        let names = match parameters.0 {
            Ok(names) => names,
            Err(e) => {
                return (Err(e), parameters.1);
            },
        };
        let body = self.parse_block_statement(self.step(parameters.1));
        match body.0 {
            Ok(b) => (Ok(Expression::new_function(token, names, b)), body.1),
            Err(e) => (Err(e), body.1),
        }
    }

    /// Parses a block statement.
    #[verifier::loop_isolation(false)]
    fn parse_block_statement(&self, pos: usize) -> (r: (Result<Block, ParserError>, usize))
        requires
            self.within(pos),
        ensures
            block_parsed(r) == parse_block(self.tokens(), pos as int),
            forward(self.tokens(), pos as int, r.1 as int),
            r.0 is Ok ==> block_ok(r.0->Ok_0@),
        decreases self.tokens().len() - pos, 8nat,
    {
        match Self::expect_token_kind(self.at(pos, 0), TokenKind::LeftCurly) {
            Some(e) => {
                return (Err(e), pos);
            },
            None => {},
        }
        let token = self.tokens[pos].dup();
        let mut statements: Vec<Box<Statement>> = Vec::new();
        let mut at = pos + 1;
        let ghost target = parse_block_statements(
            self.tokens(),
            pos + 1,
            Seq::<StmtView>::empty(),
        );
        assert(stmts_view(statements@) =~= Seq::<StmtView>::empty());
        loop
            invariant
                pos < at <= self.tokens().len(),
                token@ == self.tokens()[pos as int],
                token@.kind is LeftCurly,
                stmts_ok(stmts_view(statements@)),
                parse_block_statements(self.tokens(), at as int, stmts_view(statements@))
                    == target,
            decreases self.tokens().len() - at,
        {
            let current = match self.at(at, 0) {
                None => {
                    return (
                        Err(ParserError::UnexpectedEOFWithExpectation(TokenKind::RightCurly)),
                        at,
                    );
                },
                Some(t) => t,
            };
            if matches!(current.kind, TokenKind::RightCurly) {
                return (Ok(Block::new(token, statements)), at);
            }
            let statement = self.parse_statement(at);
            match statement.0 {
                Ok(s) => {
                    let ghost before = stmts_view(statements@);
                    statements.push(Box::new(s));
                    assert(stmts_view(statements@) =~= before.push(s@));
                    at = self.step(statement.1);
                },
                Err(e) => {
                    return (Err(e), statement.1);
                },
            }
        }
    }

    /// The place after an optional semicolon that follows the token at `pos`.
    fn skip_semicolon(&self, pos: usize) -> (r: usize)
        requires
            self.within(pos),
        ensures
            r == after_semicolon(self.tokens(), pos as int),
    {
        if self.is_kind(pos, 1, &TokenKind::SemiColon) {
            pos + 1
        } else {
            pos
        }
    }

    /// Parses a statement starting from the current token.
    fn parse_statement(&self, pos: usize) -> (r: (Result<Statement, ParserError>, usize))
        requires
            self.within(pos),
        ensures
            stmt_parsed(r) == parse_statement(self.tokens(), pos as int),
            forward(self.tokens(), pos as int, r.1 as int),
            r.0 is Ok ==> stmt_ok(r.0->Ok_0@),
        decreases self.tokens().len() - pos, 9nat,
    {
        let token = match self.at(pos, 0) {
            None => {
                return (Err(ParserError::UnexpectedEOF), pos);
            },
            Some(t) => t,
        };
        match &token.kind {
            TokenKind::Let => self.parse_let_statement(pos),
            TokenKind::Return => self.parse_return_statement(pos),
            TokenKind::Function => {
                let named = match self.at(pos, 1) {
                    Some(t) => matches!(t.kind, TokenKind::Identifier(_)),
                    None => false,
                };
                if named {
                    self.parse_function_declaration_statement(pos)
                } else {
                    self.parse_expression_statement(pos)
                }
            },
            TokenKind::LeftCurly => {
                let block = self.parse_block_statement(pos);
                match block.0 {
                    Ok(b) => (Ok(Statement::Block(b)), block.1),
                    Err(e) => (Err(e), block.1),
                }
            },
            TokenKind::ILLEGAL(_) => (Err(ParserError::InvalidToken(token.dup())), pos),
            _ => self.parse_expression_statement(pos),
        }
    }

    /// Parses a let statement
    fn parse_let_statement(&self, pos: usize) -> (r: (Result<Statement, ParserError>, usize))
        requires
            self.within(pos),
        ensures
            stmt_parsed(r) == parse_let_statement(self.tokens(), pos as int),
            forward(self.tokens(), pos as int, r.1 as int),
            r.0 is Ok ==> stmt_ok(r.0->Ok_0@),
        decreases self.tokens().len() - pos, 8nat,
    {
        match Self::expect_token_kind(self.at(pos, 0), TokenKind::Let) {
            Some(e) => {
                return (Err(e), pos);
            },
            None => {},
        }
        match Self::expect_name(self.at(pos, 1)) {
            Some(e) => {
                return (Err(e), self.step(pos));
            },
            None => {},
        }
        match Self::expect_token_kind(self.at(pos, 2), TokenKind::Equals) {
            Some(e) => {
                return (Err(e), self.step(pos + 1));
            },
            None => {},
        }
        let value = self.parse_expression(pos + 3, Precedence::Lowest);
        match value.0 {
            Ok(v) => (
                Ok(
                    Statement::new_let(
                        self.tokens[pos].dup(),
                        Identifier::new(self.tokens[pos + 1].dup()),
                        Box::new(v),
                    ),
                ),
                self.skip_semicolon(value.1),
            ),
            Err(e) => (Err(e), value.1),
        }
    }

    /// Parses a return statement
    fn parse_return_statement(&self, pos: usize) -> (r: (Result<Statement, ParserError>, usize))
        requires
            self.within(pos),
        ensures
            stmt_parsed(r) == parse_return_statement(self.tokens(), pos as int),
            forward(self.tokens(), pos as int, r.1 as int),
            r.0 is Ok ==> stmt_ok(r.0->Ok_0@),
        decreases self.tokens().len() - pos, 8nat,
    {
        match Self::expect_token_kind(self.at(pos, 0), TokenKind::Return) {
            Some(e) => {
                return (Err(e), pos);
            },
            None => {},
        }
        let value = self.parse_expression(pos + 1, Precedence::Lowest);
        match value.0 {
            Ok(v) => (
                Ok(Statement::new_return(self.tokens[pos].dup(), Box::new(v))),
                self.skip_semicolon(value.1),
            ),
            Err(e) => (Err(e), value.1),
        }
    }

    /// Parses an expression statement
    fn parse_expression_statement(&self, pos: usize) -> (r: (
        Result<Statement, ParserError>,
        usize,
    ))
        requires
            self.within(pos),
        ensures
            stmt_parsed(r) == parse_expression_statement(self.tokens(), pos as int),
            forward(self.tokens(), pos as int, r.1 as int),
            r.0 is Ok ==> stmt_ok(r.0->Ok_0@),
        decreases self.tokens().len() - pos, 8nat,
    {
        let token = match self.at(pos, 0) {
            None => {
                return (Err(ParserError::UnexpectedEOF), pos);
            },
            Some(t) => t,
        };
        let expression = self.parse_expression(pos, Precedence::Lowest);
        match expression.0 {
            Ok(e) => (
                Ok(Statement::new_expression(token.dup(), Box::new(e))),
                self.skip_semicolon(expression.1),
            ),
            Err(e) => (Err(e), expression.1),
        }
    }

    /// Parses a function declaration statement.
    fn parse_function_declaration_statement(&self, pos: usize) -> (r: (
        Result<Statement, ParserError>,
        usize,
    ))
        requires
            self.within(pos),
        ensures
            stmt_parsed(r) == parse_function_declaration(self.tokens(), pos as int),
            forward(self.tokens(), pos as int, r.1 as int),
            r.0 is Ok ==> stmt_ok(r.0->Ok_0@),
        decreases self.tokens().len() - pos, 8nat,
    {
        match Self::expect_token_kind(self.at(pos, 0), TokenKind::Function) {
            Some(e) => {
                return (Err(e), pos);
            },
            None => {},
        }
        match Self::expect_name(self.at(pos, 1)) {
            Some(e) => {
                return (Err(e), self.step(pos));
            },
            None => {},
        }
        match Self::expect_token_kind(self.at(pos, 2), TokenKind::LeftParen) {
            Some(e) => {
                return (Err(e), pos + 1);
            },
            None => {},
        }
        let parameters = self.parse_function_parameters(pos + 2);
        let names = match parameters.0 {
            Ok(names) => names,
            Err(e) => {
                return (Err(e), parameters.1);
            },
        };
        let body = self.parse_block_statement(self.step(parameters.1));
        match body.0 {
            Ok(b) => (
                Ok(
                    Statement::new_function(
                        self.tokens[pos].dup(),
                        Identifier::new(self.tokens[pos + 1].dup()),
                        names,
                        b,
                    ),
                ),
                body.1,
            ),
            Err(e) => (Err(e), body.1),
        }
    }

    /// Parses a program: every statement up to the end of the tokens. A
    /// statement that fails is recorded, the parser moves one token on and
    /// goes on; if any failed, all the errors are returned together.
    #[verifier::loop_isolation(false)]
    pub fn parse(&mut self) -> (r: Result<Program, Vec<ParserError>>)
        requires
            old(self).wf(),
        ensures
            final(self).wf(),
            final(self).tokens() == old(self).tokens(),
            program_parsed(r) == parse_program(old(self).tokens(), old(self).place()),
            r is Ok ==> stmts_ok(r->Ok_0@),
            r is Err ==> r->Err_0@.len() > 0,
    {
        let mut program = Program::new();
        let mut errors: Vec<ParserError> = Vec::new();
        let ghost target = parse_statements(
            self.tokens(),
            self.place(),
            Collected { statements: Seq::empty(), errors: Seq::empty() },
        );
        assert(error_views(errors@) =~= Seq::<ParserErrorView>::empty());
        while self.pos < self.tokens.len()
            invariant
                self.wf(),
                self.tokens() == old(self).tokens(),
                stmts_ok(program@),
                parse_statements(
                    self.tokens(),
                    self.place(),
                    Collected { statements: program@, errors: error_views(errors@) },
                ) == target,
            decreases self.tokens().len() - self.place(),
        {
            let statement = self.parse_statement(self.pos);
            match statement.0 {
                Ok(s) => {
                    program.push_statement(Box::new(s));
                },
                Err(e) => {
                    let ghost before = error_views(errors@);
                    errors.push(e);
                    assert(error_views(errors@) =~= before.push(e@));
                },
            }
            self.pos = self.step(statement.1);
        }
        if errors.len() > 0 {
            Err(errors)
        } else {
            Ok(program)
        }
    }
}

} // verus!
