//! The tokenizer: from source text to tokens, one at a time.
//!
//! What the tokenizer produces is specified by [`lex_step`], a function of the
//! text and of the index of the character that is read next.

use vstd::prelude::*;
use crate::text::{
    char_is_alphabetic, char_is_numeric, char_is_whitespace, from_chars,
    integer_literal, is_digit, is_number_char, is_numeric, is_whitespace, is_word_char,
    parse_i64, to_chars,
};
use crate::token::{
    token_views, word_kind, Position, Token, TokenKind, TokenKindView, TokenView,
};

verus! {

/// A class of characters that the tokenizer reads as one run.
#[derive(Debug, Clone, Copy, PartialEq, Eq, Structural)]
pub enum CharClass {
    /// White space between tokens.
    Blank,
    /// The characters of a word: alphabetic or underscore.
    Word,
    /// The characters of a number: numeric or dot.
    Number,
    /// What may stand inside a string literal: all but `"` and a line break.
    StringBody,
    /// What a line comment holds: all but a line break.
    CommentBody,
}

/// Whether `c` belongs to `class`.
pub open spec fn in_class(class: CharClass, c: char) -> bool {
    match class {
        CharClass::Blank => is_whitespace(c),
        CharClass::Word => is_word_char(c),
        CharClass::Number => is_number_char(c),
        CharClass::StringBody => c != '"' && c != '\n',
        CharClass::CommentBody => c != '\n',
    }
}

/// The character at index `i`, if the text has one there.
pub open spec fn char_at(chars: Seq<char>, i: int) -> Option<char> {
    if 0 <= i < chars.len() {
        Some(chars[i])
    } else {
        None
    }
}

/// The first index from `i` on whose character is not in `class`, or the
/// length of the text if there is none.
pub open spec fn run_end(chars: Seq<char>, i: int, class: CharClass) -> int
    decreases chars.len() - i,
{
    if 0 <= i < chars.len() && in_class(class, chars[i]) {
        run_end(chars, i + 1, class)
    } else {
        i
    }
}

/// The line that the tokenizer is on once it has read the first `n`
/// characters: one more than the number of line breaks among them.
pub open spec fn line_after(chars: Seq<char>, n: int) -> int
    decreases n,
{
    if n <= 0 || n > chars.len() {
        1
    } else if chars[n - 1] == '\n' {
        line_after(chars, n - 1) + 1
    } else {
        line_after(chars, n - 1)
    }
}

/// The column that the tokenizer is on once it has read the first `n`
/// characters: how many of them follow the last line break.
pub open spec fn column_after(chars: Seq<char>, n: int) -> int
    decreases n,
{
    if n <= 0 || n > chars.len() {
        0
    } else if chars[n - 1] == '\n' {
        0
    } else {
        column_after(chars, n - 1) + 1
    }
}

/// The position that a token starting at index `i` is given.
pub open spec fn position_of(chars: Seq<char>, i: int) -> Position {
    Position(line_after(chars, i + 1) as usize, column_after(chars, i + 1) as usize)
}

/// How many dots `s` holds.
pub open spec fn dots(s: Seq<char>) -> nat
    decreases s.len(),
{
    if s.len() == 0 {
        0
    } else {
        dots(s.drop_last()) + if s.last() == '.' {
            1nat
        } else {
            0nat
        }
    }
}

/// A well-formed literal with a fraction: ASCII digits around exactly one
/// dot, starting with a digit.
pub open spec fn float_literal_ok(run: Seq<char>) -> bool {
    &&& run.len() > 0
    &&& is_digit(run[0])
    &&& dots(run) == 1
    &&& forall|i: int| 0 <= i < run.len() ==> is_digit(#[trigger] run[i]) || run[i] == '.'
}

/// The kind of the numeric run `run`: a float if it holds a dot, else an
/// integer. `None` if the run is not a well-formed literal of that kind.
pub open spec fn number_kind(run: Seq<char>) -> Option<TokenKindView> {
    if dots(run) > 0 {
        if float_literal_ok(run) {
            Some(TokenKind::Float(run))
        } else {
            None
        }
    } else {
        match integer_literal(run) {
            Some(i) => Some(TokenKind::Integer(i)),
            None => None,
        }
    }
}

/// The token that starts at index `i`, where a character stands that is
/// neither white space nor the start of a comment, and the index of the
/// character after the token. The kind is `None` for a malformed number.
pub open spec fn lexeme(chars: Seq<char>, i: int) -> (Option<TokenKindView>, int)
    recommends
        0 <= i < chars.len(),
{
    let c = chars[i];
    let followed_by_equals = char_at(chars, i + 1) == Some('=');
    if c == '+' {
        (Some(TokenKind::Plus), i + 1)
    } else if c == '-' {
        (Some(TokenKind::Minus), i + 1)
    } else if c == '*' {
        (Some(TokenKind::Asterisk), i + 1)
    } else if c == '/' {
        (Some(TokenKind::Slash), i + 1)
    } else if c == ';' {
        (Some(TokenKind::SemiColon), i + 1)
    } else if c == ':' {
        (Some(TokenKind::Colon), i + 1)
    } else if c == '(' {
        (Some(TokenKind::LeftParen), i + 1)
    } else if c == ')' {
        (Some(TokenKind::RightParen), i + 1)
    } else if c == '{' {
        (Some(TokenKind::LeftCurly), i + 1)
    } else if c == '}' {
        (Some(TokenKind::RightCurly), i + 1)
    } else if c == '[' {
        (Some(TokenKind::LeftBracket), i + 1)
    } else if c == ']' {
        (Some(TokenKind::RightBracket), i + 1)
    } else if c == ',' {
        (Some(TokenKind::Comma), i + 1)
    } else if c == '.' {
        (Some(TokenKind::Dot), i + 1)
    } else if c == '=' {
        if followed_by_equals {
            (Some(TokenKind::EqualsEquals), i + 2)
        } else {
            (Some(TokenKind::Equals), i + 1)
        }
    } else if c == '!' {
        if followed_by_equals {
            (Some(TokenKind::BangEquals), i + 2)
        } else {
            (Some(TokenKind::Bang), i + 1)
        }
    } else if c == '>' {
        if followed_by_equals {
            (Some(TokenKind::GreaterThanEquals), i + 2)
        } else {
            (Some(TokenKind::GreaterThan), i + 1)
        }
    } else if c == '<' {
        if followed_by_equals {
            (Some(TokenKind::LessThanEquals), i + 2)
        } else {
            (Some(TokenKind::LessThan), i + 1)
        }
    } else if c == '"' {
        let end = run_end(chars, i + 1, CharClass::StringBody);
        let text = chars.subrange(i + 1, end);
        if char_at(chars, end) == Some('"') {
            (Some(TokenKind::String(text)), end + 1)
        } else {
            (Some(TokenKind::String(text)), end)
        }
    } else if is_word_char(c) {
        let end = run_end(chars, i + 1, CharClass::Word);
        (Some(word_kind(chars.subrange(i, end))), end)
    } else if is_numeric(c) {
        let end = run_end(chars, i + 1, CharClass::Number);
        (number_kind(chars.subrange(i, end)), end)
    } else {
        (Some(TokenKind::ILLEGAL(c)), i + 1)
    }
}

/// What reading one token yields.
pub enum LexStep {
    /// The text holds no further token.
    End,
    /// The next token is a number that is not well formed.
    Malformed,
    /// The next token, and the index of the character after it.
    Token(TokenView, int),
}

/// Reads one token from index `i` on: skips white space and line comments
/// (`//` up to the end of the line), then reads the token that starts there.
pub open spec fn lex_step(chars: Seq<char>, i: int) -> LexStep
    decreases chars.len() - i,
{
    let j = run_end(chars, i, CharClass::Blank);
    if j < 0 || j >= chars.len() {
        LexStep::End
    } else if chars[j] == '/' && char_at(chars, j + 1) == Some('/') {
        let k = run_end(chars, j, CharClass::CommentBody);
        if i <= j < k <= chars.len() {
            lex_step(chars, k)
        } else {
            LexStep::End
        }
    } else {
        match lexeme(chars, j) {
            (Some(kind), end) => LexStep::Token(
                Token { kind, position: position_of(chars, j) },
                end,
            ),
            (None, _) => LexStep::Malformed,
        }
    }
}

/// All the tokens of the text from index `i` on, up to its end or to the
/// first malformed number.
pub open spec fn tokens_from(chars: Seq<char>, i: int) -> Seq<TokenView>
    decreases chars.len() - i,
{
    match lex_step(chars, i) {
        LexStep::Token(token, end) => if i < end <= chars.len() {
            seq![token] + tokens_from(chars, end)
        } else {
            seq![token]
        },
        _ => Seq::empty(),
    }
}

/// Every number in the text from index `i` on is well formed.
pub open spec fn numbers_well_formed(chars: Seq<char>, i: int) -> bool
    decreases chars.len() - i,
{
    match lex_step(chars, i) {
        LexStep::Token(_, end) => if i < end <= chars.len() {
            numbers_well_formed(chars, end)
        } else {
            true
        },
        LexStep::Malformed => false,
        LexStep::End => true,
    }
}

/// The tokens of a whole text.
pub open spec fn tokens_of(chars: Seq<char>) -> Seq<TokenView> {
    tokens_from(chars, 0)
}

/// A run ends at or after its start, within the text if it starts there, on
/// a character outside the class, and holds only characters of the class.
pub proof fn lemma_run_end(chars: Seq<char>, i: int, class: CharClass)
    requires
        0 <= i,
    ensures
        i <= run_end(chars, i, class),
        i <= chars.len() ==> run_end(chars, i, class) <= chars.len(),
        match char_at(chars, run_end(chars, i, class)) {
            Some(c) => !in_class(class, c),
            None => true,
        },
        forall|j: int| i <= j < run_end(chars, i, class) ==> in_class(class, #[trigger] chars[j]),
    decreases chars.len() - i,
{
    if i < chars.len() && in_class(class, chars[i]) {
        lemma_run_end(chars, i + 1, class);
    }
}

/// A run is the same from any index inside it.
pub proof fn lemma_run_end_from_inside(chars: Seq<char>, i: int, j: int, class: CharClass)
    requires
        0 <= i <= j <= run_end(chars, i, class),
    ensures
        run_end(chars, j, class) == run_end(chars, i, class),
    decreases j - i,
{
    if i < j {
        lemma_run_end(chars, i, class);
        lemma_run_end_from_inside(chars, i + 1, j, class);
    }
}

/// Lines and columns are bounded by the number of characters read.
pub proof fn lemma_position_bounds(chars: Seq<char>, n: int)
    ensures
        1 <= line_after(chars, n) <= 1 + chars.len(),
        0 <= column_after(chars, n) <= chars.len(),
        0 <= n <= chars.len() ==> line_after(chars, n) <= 1 + n && column_after(chars, n) <= n,
    decreases n,
{
    if 0 < n <= chars.len() {
        lemma_position_bounds(chars, n - 1);
    }
}

/// A token ends after the index at which it starts.
pub proof fn lemma_lexeme_advances(chars: Seq<char>, i: int)
    requires
        0 <= i < chars.len(),
    ensures
        i < lexeme(chars, i).1 <= chars.len(),
{
    lemma_run_end(chars, i + 1, CharClass::StringBody);
    lemma_run_end(chars, i + 1, CharClass::Word);
    lemma_run_end(chars, i + 1, CharClass::Number);
}

/// Reading one token moves forward: a token that is read ends after the
/// index from which the step began, and within the text.
pub proof fn lemma_lex_step_advances(chars: Seq<char>, i: int)
    requires
        0 <= i,
    ensures
        match lex_step(chars, i) {
            LexStep::Token(_, end) => i < end <= chars.len(),
            _ => true,
        },
    decreases chars.len() - i,
{
    let j = run_end(chars, i, CharClass::Blank);
    lemma_run_end(chars, i, CharClass::Blank);
    if j < chars.len() {
        if chars[j] == '/' && char_at(chars, j + 1) == Some('/') {
            let k = run_end(chars, j, CharClass::CommentBody);
            lemma_run_end(chars, j, CharClass::CommentBody);
            if k > j {
                lemma_lex_step_advances(chars, k);
            }
        } else {
            lemma_lexeme_advances(chars, j);
        }
    }
}

/// The tokenizer: the text, and how far it has been read.
#[derive(Debug)]
pub struct Lexer {
    chars: Vec<char>,
    current_pos: usize,
    current_ch: Option<char>,
    peek_ch: Option<char>,
    position: Position,
}

/// What the tokenizer found when it read one token.
pub enum Scanned {
    /// The text holds no further token.
    End,
    /// The next token is a number that is not well formed.
    Malformed,
    /// The next token.
    Token(Token),
}

impl Lexer {
    /// The text that is being read.
    pub closed spec fn text(&self) -> Seq<char> {
        self.chars@
    }

    /// How many times a character has been read.
    pub closed spec fn reads(&self) -> int {
        self.current_pos as int
    }

    /// The index of the current character: the one that was read last.
    pub open spec fn cursor(&self) -> int {
        self.reads() - 1
    }

    /// The current character as the tokenizer holds it.
    pub closed spec fn current(&self) -> Option<char> {
        self.current_ch
    }

    /// The character after the current one as the tokenizer holds it.
    pub closed spec fn peek(&self) -> Option<char> {
        self.peek_ch
    }

    /// The position of the current character as the tokenizer holds it.
    pub closed spec fn place(&self) -> Position {
        self.position
    }

    /// The tokenizer's state is consistent: it holds the characters at and
    /// after the cursor, and the line and column of the current one.
    pub open spec fn wf(&self) -> bool {
        &&& self.text().len() < usize::MAX
        &&& self.reads() >= 1
        &&& self.current() == char_at(self.text(), self.cursor())
        &&& self.peek() == char_at(self.text(), self.cursor() + 1)
        &&& self.place() == if self.reads() <= self.text().len() {
            position_of(self.text(), self.cursor())
        } else {
            position_of(self.text(), self.text().len() - 1)
        }
    }

    /// The tokens that are still to come.
    pub open spec fn remaining(&self) -> Seq<TokenView> {
        tokens_from(self.text(), self.cursor())
    }

    /// Every number that is still to come is well formed.
    pub open spec fn numbers_ok(&self) -> bool {
        numbers_well_formed(self.text(), self.cursor())
    }

    /// A tokenizer at the first character of `input`.
    pub fn new(input: String) -> (r: Self)
        requires
            input@.len() < usize::MAX,
        ensures
            r.wf(),
            r.text() == input@,
            r.reads() == 1,
    {
        let chars = to_chars(input.as_str());
        let current_ch = if 0 < chars.len() {
            Some(chars[0])
        } else {
            None
        };
        let peek_ch = if 1 < chars.len() {
            Some(chars[1])
        } else {
            None
        };
        let position = match current_ch {
            Some(c) => if c == '\n' {
                Position(2, 0)
            } else {
                Position(1, 1)
            },
            None => Position(1, 0),
        };
        proof {
            reveal_with_fuel(line_after, 2);
            reveal_with_fuel(column_after, 2);
        }
        Lexer { chars, current_pos: 1, current_ch, peek_ch, position }
    }

    /// The text that is being read.
    pub fn input(&self) -> (r: String)
        ensures
            r@ == self.text(),
    {
        let r = from_chars(&self.chars, 0, self.chars.len());
        assert(self.chars@.subrange(0, self.chars.len() as int) =~= self.chars@);
        r
    }

    /// How many times a character has been read.
    pub fn current_pos(&self) -> (r: usize)
        ensures
            r == self.reads(),
    {
        self.current_pos
    }

    /// The current character, `None` past the end of the text.
    pub fn current_ch(&self) -> (r: Option<char>)
        ensures
            r == self.current(),
    {
        self.current_ch
    }

    /// The character after the current one, `None` past the end of the text.
    pub fn peek_ch(&self) -> (r: Option<char>)
        ensures
            r == self.peek(),
    {
        self.peek_ch
    }

    /// The position of the current character.
    pub fn position(&self) -> (r: Position)
        ensures
            r == self.place(),
    {
        self.position
    }

    /// Moves to the next character, counting lines and columns.
    pub fn read_char(&mut self)
        requires
            old(self).wf(),
            old(self).reads() < usize::MAX,
        ensures
            final(self).wf(),
            final(self).text() == old(self).text(),
            final(self).reads() == old(self).reads() + 1,
    {
        let n = self.chars.len();
        proof {
            lemma_position_bounds(self.chars@, self.current_pos as int);
            lemma_position_bounds(self.chars@, self.current_pos + 1);
        }
        if self.current_pos >= n {
            self.current_ch = None;
            self.peek_ch = None;
        } else {
            let c = self.chars[self.current_pos];
            self.current_ch = Some(c);
            self.peek_ch = if self.current_pos + 1 < n {
                Some(self.chars[self.current_pos + 1])
            } else {
                None
            };
            if c == '\n' {
                self.position = Position(self.position.0 + 1, 0);
            } else {
                self.position = Position(self.position.0, self.position.1 + 1);
            }
        }
        self.current_pos = self.current_pos + 1;
    }

    /// Whether the character after the current one is `ch`.
    pub fn peek_char_is(&self, ch: char) -> (r: bool)
        ensures
            r == (self.peek() == Some(ch)),
    {
        match self.peek_ch {
            Some(c) => c == ch,
            None => false,
        }
    }

    /// Whether the current character is alphabetic or an underscore.
    pub fn current_is_alphabetic(&self) -> (r: bool)
        ensures
            r == match self.current() {
                Some(c) => is_word_char(c),
                None => false,
            },
    {
        match self.current_ch {
            Some(c) => char_is_alphabetic(c) || c == '_',
            None => false,
        }
    }

    /// Whether the current character is numeric.
    pub fn current_is_numeric(&self) -> (r: bool)
        ensures
            r == match self.current() {
                Some(c) => is_numeric(c),
                None => false,
            },
    {
        match self.current_ch {
            Some(c) => char_is_numeric(c),
            None => false,
        }
    }

    fn current_in(&self, class: CharClass) -> (r: bool)
        ensures
            r == match self.current() {
                Some(c) => in_class(class, c),
                None => false,
            },
    {
        match self.current_ch {
            Some(c) => match class {
                CharClass::Blank => char_is_whitespace(c),
                CharClass::Word => char_is_alphabetic(c) || c == '_',
                CharClass::Number => char_is_numeric(c) || c == '.',
                CharClass::StringBody => c != '"' && c != '\n',
                CharClass::CommentBody => c != '\n',
            },
            None => false,
        }
    }

    /// Reads on to the first character that is not in `class`.
    fn skip_run(&mut self, class: CharClass)
        requires
            old(self).wf(),
        ensures
            final(self).wf(),
            final(self).text() == old(self).text(),
            final(self).cursor() == run_end(old(self).text(), old(self).cursor(), class),
    {
        while self.current_in(class)
            invariant
                self.wf(),
                self.text() == old(self).text(),
                run_end(self.text(), self.cursor(), class) == run_end(
                    old(self).text(),
                    old(self).cursor(),
                    class,
                ),
            decreases self.text().len() - self.cursor(),
        {
            self.read_char();
        }
    }

    /// Skips the white space at the cursor.
    pub fn skip_whitespaces(&mut self)
        requires
            old(self).wf(),
        ensures
            final(self).wf(),
            final(self).text() == old(self).text(),
            final(self).cursor() == run_end(old(self).text(), old(self).cursor(), CharClass::Blank),
    {
        self.skip_run(CharClass::Blank);
    }

    /// Reads a word from the cursor on: a keyword or an identifier.
    fn read_alphabetic_token(&mut self) -> (r: Token)
        requires
            old(self).wf(),
            old(self).current() is Some,
        ensures
            final(self).wf(),
            final(self).text() == old(self).text(),
            final(self).cursor() == run_end(
                old(self).text(),
                old(self).cursor() + 1,
                CharClass::Word,
            ),
            r@ == (Token {
                kind: word_kind(old(self).text().subrange(old(self).cursor(), final(self).cursor())),
                position: position_of(old(self).text(), old(self).cursor()),
            }),
    {
        let token_position = self.position;
        let start = self.current_pos - 1;
        self.read_char();
        self.skip_run(CharClass::Word);
        proof {
            lemma_run_end(self.chars@, start + 1, CharClass::Word);
        }
        let end = self.current_pos - 1;
        let buf = from_chars(&self.chars, start, end);
        Token::new(TokenKind::new_alphabetic(buf), token_position)
    }

    /// Reads a string literal from the opening quote at the cursor on, up to
    /// the closing quote, the end of the line or the end of the text.
    fn read_string(&mut self) -> (r: Token)
        requires
            old(self).wf(),
            old(self).current() == Some('"'),
        ensures
            final(self).wf(),
            final(self).text() == old(self).text(),
            lexeme(old(self).text(), old(self).cursor()) == (Some(r@.kind), final(self).cursor()),
            r@.position == position_of(old(self).text(), old(self).cursor()),
    {
        let token_position = self.position;
        let start = self.current_pos;
        self.read_char();
        self.skip_run(CharClass::StringBody);
        proof {
            lemma_run_end(self.chars@, start as int, CharClass::StringBody);
        }
        let end = self.current_pos - 1;
        let buf = from_chars(&self.chars, start, end);
        match self.current_ch {
            Some(c) => {
                if c == '"' {
                    self.read_char();
                }
            },
            None => {},
        }
        Token::new(TokenKind::String(buf), token_position)
    }

    /// Reads a number from the cursor on. `None` if it is not well formed.
    fn read_numeric_token(&mut self) -> (r: Option<Token>)
        requires
            old(self).wf(),
            old(self).current() is Some,
        ensures
            final(self).wf(),
            final(self).text() == old(self).text(),
            final(self).cursor() == run_end(
                old(self).text(),
                old(self).cursor() + 1,
                CharClass::Number,
            ),
            match number_kind(old(self).text().subrange(old(self).cursor(), final(self).cursor())) {
                Some(kind) => r is Some && r->0@ == (Token {
                    kind,
                    position: position_of(old(self).text(), old(self).cursor()),
                }),
                None => r is None,
            },
    {
        let token_position = self.position;
        let start = self.current_pos - 1;
        self.read_char();
        self.skip_run(CharClass::Number);
        proof {
            lemma_run_end(self.chars@, start + 1, CharClass::Number);
        }
        let end = self.current_pos - 1;
        let ghost run = self.chars@.subrange(start as int, end as int);
        let mut dot_count: usize = 0;
        let mut digits_and_dots = true;
        let mut i: usize = start;
        while i < end
            invariant
                start <= i <= end <= self.chars.len(),
                run == self.chars@.subrange(start as int, end as int),
                dot_count == dots(run.take(i - start)),
                dot_count <= i - start,
                digits_and_dots == (forall|j: int|
                    0 <= j < i - start ==> is_digit(#[trigger] run[j]) || run[j] == '.'),
            decreases end - i,
        {
            let c = self.chars[i];
            assert(run[i - start] == c);
            assert(run.take(i - start + 1).drop_last() =~= run.take(i - start));
            if c == '.' {
                dot_count = dot_count + 1;
            } else if !(c >= '0' && c <= '9') {
                digits_and_dots = false;
            }
            i += 1;
        }
        assert(run.take(end - start) =~= run);
        if dot_count > 0 {
            let first = self.chars[start];
            assert(run[0] == first);
            if dot_count == 1 && digits_and_dots && first >= '0' && first <= '9' {
                let buf = from_chars(&self.chars, start, end);
                Some(Token::new(TokenKind::Float(buf), token_position))
            } else {
                None
            }
        } else {
            match parse_i64(&self.chars, start, end) {
                Some(value) => Some(Token::new(TokenKind::Integer(value), token_position)),
                None => None,
            }
        }
    }

    /// Reads one token: skips white space and line comments, then reads the
    /// token at the cursor and moves past it.
    pub fn scan(&mut self) -> (r: Scanned)
        requires
            old(self).wf(),
        ensures
            final(self).wf(),
            final(self).text() == old(self).text(),
            match lex_step(old(self).text(), old(self).cursor()) {
                LexStep::End => r is End && final(self).remaining() == Seq::<TokenView>::empty(),
                LexStep::Malformed => r is Malformed,
                LexStep::Token(token, end) => r is Token && r->Token_0@ == token
                    && final(self).cursor() == end,
            },
    {
        loop
            invariant
                self.wf(),
                self.text() == old(self).text(),
                lex_step(self.text(), self.cursor()) == lex_step(
                    old(self).text(),
                    old(self).cursor(),
                ),
            decreases self.text().len() - self.cursor(),
        {
            let ghost before = self.cursor();
            self.skip_run(CharClass::Blank);
            proof {
                lemma_run_end(self.chars@, before, CharClass::Blank);
                lemma_run_end_from_inside(self.chars@, before, self.cursor(), CharClass::Blank);
            }
            let ghost j = self.cursor();
            let c = match self.current_ch {
                Some(c) => c,
                None => {
                    return Scanned::End;
                },
            };
            let token_position = self.position;
            if c == '/' && self.peek_char_is('/') {
                self.skip_run(CharClass::CommentBody);
                proof {
                    lemma_run_end(self.chars@, j, CharClass::CommentBody);
                }
                continue ;
            }
            let kind = if c == '+' {
                TokenKind::Plus
            } else if c == '-' {
                TokenKind::Minus
            } else if c == '*' {
                TokenKind::Asterisk
            } else if c == '/' {
                TokenKind::Slash
            } else if c == ';' {
                TokenKind::SemiColon
            } else if c == ':' {
                TokenKind::Colon
            } else if c == '(' {
                TokenKind::LeftParen
            } else if c == ')' {
                TokenKind::RightParen
            } else if c == '{' {
                TokenKind::LeftCurly
            } else if c == '}' {
                TokenKind::RightCurly
            } else if c == '[' {
                TokenKind::LeftBracket
            } else if c == ']' {
                TokenKind::RightBracket
            } else if c == ',' {
                TokenKind::Comma
            } else if c == '.' {
                TokenKind::Dot
            } else if c == '=' {
                if self.peek_char_is('=') {
                    self.read_char();
                    TokenKind::EqualsEquals
                } else {
                    TokenKind::Equals
                }
            } else if c == '!' {
                if self.peek_char_is('=') {
                    self.read_char();
                    TokenKind::BangEquals
                } else {
                    TokenKind::Bang
                }
            } else if c == '>' {
                if self.peek_char_is('=') {
                    self.read_char();
                    TokenKind::GreaterThanEquals
                } else {
                    TokenKind::GreaterThan
                }
            } else if c == '<' {
                if self.peek_char_is('=') {
                    self.read_char();
                    TokenKind::LessThanEquals
                } else {
                    TokenKind::LessThan
                }
            } else if c == '"' {
                return Scanned::Token(self.read_string());
            } else if self.current_is_alphabetic() {
                return Scanned::Token(self.read_alphabetic_token());
            } else if self.current_is_numeric() {
                return match self.read_numeric_token() {
                    Some(token) => Scanned::Token(token),
                    None => Scanned::Malformed,
                };
            } else {
                TokenKind::ILLEGAL(c)
            };
            self.read_char();
            return Scanned::Token(Token::new(kind, token_position));
        }
    }

    /// All the tokens that are still to come, or `None` if a number among
    /// them is not well formed.
    #[verifier::loop_isolation(false)]
    pub fn collect(&mut self) -> (r: Option<Vec<Token>>)
        requires
            old(self).wf(),
        ensures
            final(self).wf(),
            final(self).text() == old(self).text(),
            r is Some <==> old(self).numbers_ok(),
            r is Some ==> token_views(r->0@) == old(self).remaining(),
    {
        let mut tokens: Vec<Token> = Vec::new();
        assert(token_views(tokens@) + self.remaining() =~= self.remaining());
        loop
            invariant
                self.wf(),
                self.text() == old(self).text(),
                self.numbers_ok() == old(self).numbers_ok(),
                self.numbers_ok() ==> token_views(tokens@) + self.remaining() == old(
                    self,
                ).remaining(),
            decreases self.text().len() - self.cursor(),
        {
            proof {
                lemma_lex_step_advances(self.text(), self.cursor());
            }
            let ghost before = token_views(tokens@);
            let ghost rest = self.remaining();
            match self.scan() {
                Scanned::Token(token) => {
                    tokens.push(token);
                    assert(token_views(tokens@) =~= before.push(token@));
                    assert(before.push(token@) + self.remaining() =~= before + rest);
                },
                Scanned::Malformed => {
                    return None;
                },
                Scanned::End => {
                    assert(token_views(tokens@) + Seq::<TokenView>::empty() =~= token_views(
                        tokens@,
                    ));
                    return Some(tokens);
                },
            }
        }
    }

    /// The next token, or `None` when the text holds no more. A number that
    /// is not well formed is outside of what this function accepts.
    pub fn next(&mut self) -> (r: Option<Token>)
        requires
            old(self).wf(),
            !(lex_step(old(self).text(), old(self).cursor()) is Malformed),
        ensures
            final(self).wf(),
            final(self).text() == old(self).text(),
            match lex_step(old(self).text(), old(self).cursor()) {
                LexStep::Token(token, end) => r is Some && r->0@ == token && final(self).cursor()
                    == end,
                _ => r is None && final(self).remaining() == Seq::<TokenView>::empty(),
            },
    {
        match self.scan() {
            Scanned::Token(token) => Some(token),
            _ => None,
        }
    }
}

} // verus!
