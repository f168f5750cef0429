//! The token vocabulary and source positions shared by the tokenizer, the
//! parser and the evaluator.

use vstd::prelude::*;
use crate::text::{i64_to_string, push_char, to_chars, int_text};

verus! {

/// A place in the source text: line (from 1) and column (from 1 within the
/// line; 0 for the line break that starts the line).
#[derive(Debug, Clone, Copy, PartialEq, Eq, Structural)]
pub struct Position(pub usize, pub usize);

/// The kind of a token. `S` is the type of the text that identifiers, float
/// literals and string literals carry: `String` in executable code and
/// `Seq<char>` in specifications.
#[derive(Debug, Clone, PartialEq)]
pub enum TokenKind<S = String> {
    Plus,
    Equals,
    Minus,
    Asterisk,
    Slash,
    Bang,
    GreaterThan,
    LessThan,
    SemiColon,
    Colon,
    LeftParen,
    RightParen,
    LeftCurly,
    RightCurly,
    LeftBracket,
    RightBracket,
    Comma,
    Dot,
    EqualsEquals,
    BangEquals,
    GreaterThanEquals,
    LessThanEquals,
    Identifier(S),
    Integer(i64),
    /// A literal with a fractional part, kept as it was written.
    Float(S),
    String(S),
    True,
    False,
    Let,
    Function,
    Return,
    If,
    Else,
    ILLEGAL(char),
}

/// A token: its kind and the position of its first character.
#[derive(Debug, Clone, PartialEq)]
pub struct Token<S = String> {
    pub kind: TokenKind<S>,
    pub position: Position,
}

/// A token kind as specifications see it.
pub type TokenKindView = TokenKind<Seq<char>>;

/// A token as specifications see it.
pub type TokenView = Token<Seq<char>>;

impl View for TokenKind<String> {
    type V = TokenKindView;

    open spec fn view(&self) -> TokenKindView {
        match self {
            TokenKind::Plus => TokenKind::Plus,
            TokenKind::Equals => TokenKind::Equals,
            TokenKind::Minus => TokenKind::Minus,
            TokenKind::Asterisk => TokenKind::Asterisk,
            TokenKind::Slash => TokenKind::Slash,
            TokenKind::Bang => TokenKind::Bang,
            TokenKind::GreaterThan => TokenKind::GreaterThan,
            TokenKind::LessThan => TokenKind::LessThan,
            TokenKind::SemiColon => TokenKind::SemiColon,
            TokenKind::Colon => TokenKind::Colon,
            TokenKind::LeftParen => TokenKind::LeftParen,
            TokenKind::RightParen => TokenKind::RightParen,
            TokenKind::LeftCurly => TokenKind::LeftCurly,
            TokenKind::RightCurly => TokenKind::RightCurly,
            TokenKind::LeftBracket => TokenKind::LeftBracket,
            TokenKind::RightBracket => TokenKind::RightBracket,
            TokenKind::Comma => TokenKind::Comma,
            TokenKind::Dot => TokenKind::Dot,
            TokenKind::EqualsEquals => TokenKind::EqualsEquals,
            TokenKind::BangEquals => TokenKind::BangEquals,
            TokenKind::GreaterThanEquals => TokenKind::GreaterThanEquals,
            TokenKind::LessThanEquals => TokenKind::LessThanEquals,
            TokenKind::Identifier(s) => TokenKind::Identifier(s@),
            TokenKind::Integer(i) => TokenKind::Integer(*i),
            TokenKind::Float(s) => TokenKind::Float(s@),
            TokenKind::String(s) => TokenKind::String(s@),
            TokenKind::True => TokenKind::True,
            TokenKind::False => TokenKind::False,
            TokenKind::Let => TokenKind::Let,
            TokenKind::Function => TokenKind::Function,
            TokenKind::Return => TokenKind::Return,
            TokenKind::If => TokenKind::If,
            TokenKind::Else => TokenKind::Else,
            TokenKind::ILLEGAL(c) => TokenKind::ILLEGAL(*c),
        }
    }
}

impl View for Token<String> {
    type V = TokenView;

    open spec fn view(&self) -> TokenView {
        Token { kind: self.kind@, position: self.position }
    }
}

/// The views of a list of tokens.
pub open spec fn token_views(tokens: Seq<Token>) -> Seq<TokenView> {
    Seq::new(tokens.len(), |i: int| tokens[i]@)
}

/// The kind of the word `s`: the keyword it spells, or else an identifier.
pub open spec fn word_kind(s: Seq<char>) -> TokenKindView {
    if s == "let"@ {
        TokenKind::Let
    } else if s == "fn"@ {
        TokenKind::Function
    } else if s == "return"@ {
        TokenKind::Return
    } else if s == "if"@ {
        TokenKind::If
    } else if s == "else"@ {
        TokenKind::Else
    } else if s == "true"@ {
        TokenKind::True
    } else if s == "false"@ {
        TokenKind::False
    } else {
        TokenKind::Identifier(s)
    }
}

impl TokenKind<Seq<char>> {
    /// The text of a token of this kind: the operator, punctuation mark or
    /// keyword itself, the name of an identifier, the digits of a number,
    /// the contents of a string, the offending character.
    pub open spec fn text(self) -> Seq<char> {
        match self {
            TokenKind::Plus => "+"@,
            TokenKind::Equals => "="@,
            TokenKind::Minus => "-"@,
            TokenKind::Asterisk => "*"@,
            TokenKind::Slash => "/"@,
            TokenKind::Bang => "!"@,
            TokenKind::GreaterThan => ">"@,
            TokenKind::LessThan => "<"@,
            TokenKind::SemiColon => ";"@,
            TokenKind::Colon => ":"@,
            TokenKind::LeftParen => "("@,
            TokenKind::RightParen => ")"@,
            TokenKind::LeftCurly => "{"@,
            TokenKind::RightCurly => "}"@,
            TokenKind::LeftBracket => "["@,
            TokenKind::RightBracket => "]"@,
            TokenKind::Comma => ","@,
            TokenKind::Dot => "."@,
            TokenKind::EqualsEquals => "=="@,
            TokenKind::BangEquals => "!="@,
            TokenKind::GreaterThanEquals => ">="@,
            TokenKind::LessThanEquals => "<="@,
            TokenKind::Identifier(s) => s,
            TokenKind::Integer(i) => int_text(i as int),
            TokenKind::Float(s) => s,
            TokenKind::String(s) => s,
            TokenKind::True => "true"@,
            TokenKind::False => "false"@,
            TokenKind::Let => "let"@,
            TokenKind::Function => "fn"@,
            TokenKind::Return => "return"@,
            TokenKind::If => "if"@,
            TokenKind::Else => "else"@,
            TokenKind::ILLEGAL(c) => seq![c],
        }
    }
}

fn chars_are(v: &Vec<char>, word: &str) -> (r: bool)
    ensures
        r == (v@ == word@),
{
    let w = to_chars(word);
    if v.len() != w.len() {
        return false;
    }
    let mut i: usize = 0;
    while i < v.len()
        invariant
            w@ == word@,
            v.len() == w.len(),
            i <= v.len(),
            forall|j: int| 0 <= j < i ==> v@[j] == w@[j],
        decreases v.len() - i,
    {
        if v[i] != w[i] {
            return false;
        }
        i += 1;
    }
    assert(v@ =~= w@);
    true
}

impl TokenKind<String> {
    /// The keyword that `string` spells, or else an identifier of that name.
    pub fn new_alphabetic(string: String) -> (r: Self)
        ensures
            r@ == word_kind(string@),
    {
        let v = to_chars(string.as_str());
        if chars_are(&v, "let") {
            TokenKind::Let
        } else if chars_are(&v, "fn") {
            TokenKind::Function
        } else if chars_are(&v, "return") {
            TokenKind::Return
        } else if chars_are(&v, "if") {
            TokenKind::If
        } else if chars_are(&v, "else") {
            TokenKind::Else
        } else if chars_are(&v, "true") {
            TokenKind::True
        } else if chars_are(&v, "false") {
            TokenKind::False
        } else {
            TokenKind::Identifier(string)
        }
    }

    /// The text of a token of this kind.
    pub fn literal(&self) -> (r: String)
        ensures
            r@ == self@.text(),
    {
        match self {
            TokenKind::Plus => "+".to_owned(),
            TokenKind::Equals => "=".to_owned(),
            TokenKind::Minus => "-".to_owned(),
            TokenKind::Asterisk => "*".to_owned(),
            TokenKind::Slash => "/".to_owned(),
            TokenKind::Bang => "!".to_owned(),
            TokenKind::GreaterThan => ">".to_owned(),
            TokenKind::LessThan => "<".to_owned(),
            TokenKind::SemiColon => ";".to_owned(),
            TokenKind::Colon => ":".to_owned(),
            TokenKind::LeftParen => "(".to_owned(),
            TokenKind::RightParen => ")".to_owned(),
            TokenKind::LeftCurly => "{".to_owned(),
            TokenKind::RightCurly => "}".to_owned(),
            TokenKind::LeftBracket => "[".to_owned(),
            TokenKind::RightBracket => "]".to_owned(),
            TokenKind::Comma => ",".to_owned(),
            TokenKind::Dot => ".".to_owned(),
            TokenKind::EqualsEquals => "==".to_owned(),
            TokenKind::BangEquals => "!=".to_owned(),
            TokenKind::GreaterThanEquals => ">=".to_owned(),
            TokenKind::LessThanEquals => "<=".to_owned(),
            TokenKind::Identifier(s) => s.clone(),
            TokenKind::Integer(i) => i64_to_string(*i),
            TokenKind::Float(s) => s.clone(),
            TokenKind::String(s) => s.clone(),
            TokenKind::True => "true".to_owned(),
            TokenKind::False => "false".to_owned(),
            TokenKind::Let => "let".to_owned(),
            TokenKind::Function => "fn".to_owned(),
            TokenKind::Return => "return".to_owned(),
            TokenKind::If => "if".to_owned(),
            TokenKind::Else => "else".to_owned(),
            TokenKind::ILLEGAL(c) => {
                let mut s = String::new();
                push_char(&mut s, *c);
                assert(Seq::<char>::empty().push(*c) =~= seq![*c]);
                s
            },
        }
    }

    /// Whether the two kinds are the same, text and number included.
    pub fn same(&self, other: &TokenKind) -> (r: bool)
        ensures
            r == (self@ == other@),
    {
        match (self, other) {
            (TokenKind::Plus, TokenKind::Plus) => true,
            (TokenKind::Equals, TokenKind::Equals) => true,
            (TokenKind::Minus, TokenKind::Minus) => true,
            (TokenKind::Asterisk, TokenKind::Asterisk) => true,
            (TokenKind::Slash, TokenKind::Slash) => true,
            (TokenKind::Bang, TokenKind::Bang) => true,
            (TokenKind::GreaterThan, TokenKind::GreaterThan) => true,
            (TokenKind::LessThan, TokenKind::LessThan) => true,
            (TokenKind::SemiColon, TokenKind::SemiColon) => true,
            (TokenKind::Colon, TokenKind::Colon) => true,
            (TokenKind::LeftParen, TokenKind::LeftParen) => true,
            (TokenKind::RightParen, TokenKind::RightParen) => true,
            (TokenKind::LeftCurly, TokenKind::LeftCurly) => true,
            (TokenKind::RightCurly, TokenKind::RightCurly) => true,
            (TokenKind::LeftBracket, TokenKind::LeftBracket) => true,
            (TokenKind::RightBracket, TokenKind::RightBracket) => true,
            (TokenKind::Comma, TokenKind::Comma) => true,
            (TokenKind::Dot, TokenKind::Dot) => true,
            (TokenKind::EqualsEquals, TokenKind::EqualsEquals) => true,
            (TokenKind::BangEquals, TokenKind::BangEquals) => true,
            (TokenKind::GreaterThanEquals, TokenKind::GreaterThanEquals) => true,
            (TokenKind::LessThanEquals, TokenKind::LessThanEquals) => true,
            (TokenKind::Identifier(a), TokenKind::Identifier(b)) => *a == *b,
            (TokenKind::Integer(a), TokenKind::Integer(b)) => *a == *b,
            (TokenKind::Float(a), TokenKind::Float(b)) => *a == *b,
            (TokenKind::String(a), TokenKind::String(b)) => *a == *b,
            (TokenKind::True, TokenKind::True) => true,
            (TokenKind::False, TokenKind::False) => true,
            (TokenKind::Let, TokenKind::Let) => true,
            (TokenKind::Function, TokenKind::Function) => true,
            (TokenKind::Return, TokenKind::Return) => true,
            (TokenKind::If, TokenKind::If) => true,
            (TokenKind::Else, TokenKind::Else) => true,
            (TokenKind::ILLEGAL(a), TokenKind::ILLEGAL(b)) => *a == *b,
            _ => false,
        }
    }

    /// A copy of this kind.
    pub fn dup(&self) -> (r: Self)
        ensures
            r@ == self@,
    {
        match self {
            TokenKind::Plus => TokenKind::Plus,
            TokenKind::Equals => TokenKind::Equals,
            TokenKind::Minus => TokenKind::Minus,
            TokenKind::Asterisk => TokenKind::Asterisk,
            TokenKind::Slash => TokenKind::Slash,
            TokenKind::Bang => TokenKind::Bang,
            TokenKind::GreaterThan => TokenKind::GreaterThan,
            TokenKind::LessThan => TokenKind::LessThan,
            TokenKind::SemiColon => TokenKind::SemiColon,
            TokenKind::Colon => TokenKind::Colon,
            TokenKind::LeftParen => TokenKind::LeftParen,
            TokenKind::RightParen => TokenKind::RightParen,
            TokenKind::LeftCurly => TokenKind::LeftCurly,
            TokenKind::RightCurly => TokenKind::RightCurly,
            TokenKind::LeftBracket => TokenKind::LeftBracket,
            TokenKind::RightBracket => TokenKind::RightBracket,
            TokenKind::Comma => TokenKind::Comma,
            TokenKind::Dot => TokenKind::Dot,
            TokenKind::EqualsEquals => TokenKind::EqualsEquals,
            TokenKind::BangEquals => TokenKind::BangEquals,
            TokenKind::GreaterThanEquals => TokenKind::GreaterThanEquals,
            TokenKind::LessThanEquals => TokenKind::LessThanEquals,
            TokenKind::Identifier(s) => TokenKind::Identifier(s.clone()),
            TokenKind::Integer(i) => TokenKind::Integer(*i),
            TokenKind::Float(s) => TokenKind::Float(s.clone()),
            TokenKind::String(s) => TokenKind::String(s.clone()),
            TokenKind::True => TokenKind::True,
            TokenKind::False => TokenKind::False,
            TokenKind::Let => TokenKind::Let,
            TokenKind::Function => TokenKind::Function,
            TokenKind::Return => TokenKind::Return,
            TokenKind::If => TokenKind::If,
            TokenKind::Else => TokenKind::Else,
            TokenKind::ILLEGAL(c) => TokenKind::ILLEGAL(*c),
        }
    }
}

impl Token<Seq<char>> {
    /// The text of the token: that of its kind.
    pub open spec fn text(self) -> Seq<char> {
        self.kind.text()
    }
}

impl Token<String> {
    pub fn new(kind: TokenKind, position: Position) -> (r: Self)
        ensures
            r.kind == kind,
            r.position == position,
    {
        Token { kind, position }
    }

    /// The text of the token: that of its kind.
    pub fn literal(&self) -> (r: String)
        ensures
            r@ == self@.text(),
    {
        self.kind.literal()
    }

    /// A copy of this token.
    pub fn dup(&self) -> (r: Self)
        ensures
            r@ == self@,
    {
        Token { kind: self.kind.dup(), position: self.position }
    }
}

impl Default for Token<String> {
    /// An illegal blank at position (0, 0).
    fn default() -> (r: Self)
        ensures
            r@ == (Token { kind: TokenKindView::ILLEGAL(' '), position: Position(0, 0) }),
    {
        Token { kind: TokenKind::ILLEGAL(' '), position: Position(0, 0) }
    }
}

} // verus!
