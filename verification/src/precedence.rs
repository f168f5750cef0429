//! How tightly the operators bind.

use vstd::prelude::*;
use crate::token::{Token, TokenKind, TokenKindView};

verus! {

/// Expression precedence, from the loosest to the tightest.
#[derive(Debug, Clone, Copy, PartialEq, Eq, PartialOrd, Structural)]
pub enum Precedence {
    Lowest,
    /// ==, !=
    Equals,
    /// >, <, <=, >=
    LessOrGreater,
    /// +, -
    Sum,
    /// *, /
    Product,
    /// -x, !x
    Prefix,
    /// function()
    Call,
    /// array[0]
    Index,
}

impl Precedence {
    /// The place of this precedence on the ladder, from 0 for the loosest.
    pub open spec fn rank(self) -> nat {
        match self {
            Precedence::Lowest => 0,
            Precedence::Equals => 1,
            Precedence::LessOrGreater => 2,
            Precedence::Sum => 3,
            Precedence::Product => 4,
            Precedence::Prefix => 5,
            Precedence::Call => 6,
            Precedence::Index => 7,
        }
    }

    /// The precedence with which a token of kind `kind` binds what stands to
    /// its left: that of the operator it is, and the lowest for any other token.
    pub open spec fn of(kind: TokenKindView) -> Precedence {
        match kind {
            TokenKind::EqualsEquals | TokenKind::BangEquals => Precedence::Equals,
            TokenKind::GreaterThan
            | TokenKind::LessThan
            | TokenKind::GreaterThanEquals
            | TokenKind::LessThanEquals => Precedence::LessOrGreater,
            TokenKind::Plus | TokenKind::Minus => Precedence::Sum,
            TokenKind::Asterisk | TokenKind::Slash => Precedence::Product,
            TokenKind::LeftParen => Precedence::Call,
            TokenKind::LeftBracket => Precedence::Index,
            _ => Precedence::Lowest,
        }
    }

    /// The place of this precedence on the ladder, from 0 for the loosest.
    pub fn level(&self) -> (r: u8)
        ensures
            r == self.rank(),
    {
        match self {
            Precedence::Lowest => 0,
            Precedence::Equals => 1,
            Precedence::LessOrGreater => 2,
            Precedence::Sum => 3,
            Precedence::Product => 4,
            Precedence::Prefix => 5,
            Precedence::Call => 6,
            Precedence::Index => 7,
        }
    }

    /// Whether this precedence binds less tightly than `other`.
    pub fn lower_than(&self, other: &Precedence) -> (r: bool)
        ensures
            r == (self.rank() < other.rank()),
    {
        self.level() < other.level()
    }

    /// The precedence of a token of kind `kind`.
    pub fn of_kind(kind: &TokenKind) -> (r: Self)
        ensures
            r == Precedence::of(kind@),
    {
        match kind {
            TokenKind::EqualsEquals | TokenKind::BangEquals => Precedence::Equals,
            TokenKind::GreaterThan
            | TokenKind::LessThan
            | TokenKind::GreaterThanEquals
            | TokenKind::LessThanEquals => Precedence::LessOrGreater,
            TokenKind::Plus | TokenKind::Minus => Precedence::Sum,
            TokenKind::Asterisk | TokenKind::Slash => Precedence::Product,
            TokenKind::LeftParen => Precedence::Call,
            TokenKind::LeftBracket => Precedence::Index,
            _ => Precedence::Lowest,
        }
    }

    /// The precedence of `token`.
    pub fn from_token(token: Token) -> (r: Self)
        ensures
            r == Precedence::of(token@.kind),
    {
        Precedence::of_kind(&token.kind)
    }
}

} // verus!
