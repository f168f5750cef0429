use tsykr::lexer::Lexer;
use tsykr::token::{Position, Token, TokenKind};

fn float(text: &str) -> TokenKind {
    TokenKind::Float(text.to_string())
}

#[test]
fn test_smth_that_makes_sense() {
    let input =
        String::from("if (true) { return 2 + 2; } else { return 3.25 - 0.25; } // who cares");
    let mut lexer = Lexer::new(input);
    assert_eq!(
        lexer.next(),
        Some(Token::new(TokenKind::If, Position(1, 1)))
    );
    assert_eq!(
        lexer.next(),
        Some(Token::new(TokenKind::LeftParen, Position(1, 4)))
    );
    assert_eq!(
        lexer.next(),
        Some(Token::new(TokenKind::True, Position(1, 5)))
    );
    assert_eq!(
        lexer.next(),
        Some(Token::new(TokenKind::RightParen, Position(1, 9)))
    );
    assert_eq!(
        lexer.next(),
        Some(Token::new(TokenKind::LeftCurly, Position(1, 11)))
    );
    assert_eq!(
        lexer.next(),
        Some(Token::new(TokenKind::Return, Position(1, 13)))
    );
    assert_eq!(
        lexer.next(),
        Some(Token::new(TokenKind::Integer(2), Position(1, 20)))
    );
    assert_eq!(
        lexer.next(),
        Some(Token::new(TokenKind::Plus, Position(1, 22)))
    );
    assert_eq!(
        lexer.next(),
        Some(Token::new(TokenKind::Integer(2), Position(1, 24)))
    );
    assert_eq!(
        lexer.next(),
        Some(Token::new(TokenKind::SemiColon, Position(1, 25)))
    );
    assert_eq!(
        lexer.next(),
        Some(Token::new(TokenKind::RightCurly, Position(1, 27)))
    );
    assert_eq!(
        lexer.next(),
        Some(Token::new(TokenKind::Else, Position(1, 29)))
    );
    assert_eq!(
        lexer.next(),
        Some(Token::new(TokenKind::LeftCurly, Position(1, 34)))
    );
    assert_eq!(
        lexer.next(),
        Some(Token::new(TokenKind::Return, Position(1, 36)))
    );
    assert_eq!(
        lexer.next(),
        Some(Token::new(float("3.25"), Position(1, 43)))
    );
    assert_eq!(
        lexer.next(),
        Some(Token::new(TokenKind::Minus, Position(1, 48)))
    );
    assert_eq!(
        lexer.next(),
        Some(Token::new(float("0.25"), Position(1, 50)))
    );
    assert_eq!(
        lexer.next(),
        Some(Token::new(TokenKind::SemiColon, Position(1, 54)))
    );
    assert_eq!(
        lexer.next(),
        Some(Token::new(TokenKind::RightCurly, Position(1, 56)))
    );
}

#[test]
fn test_boolean_tokens() {
    let input = String::from("true false");
    let mut lexer = Lexer::new(input);
    assert_eq!(
        lexer.next(),
        Some(Token::new(TokenKind::True, Position(1, 1)))
    );
    assert_eq!(
        lexer.next(),
        Some(Token::new(TokenKind::False, Position(1, 6)))
    );
    assert_eq!(lexer.next(), None);
}

#[test]
fn test_numeric_tokens() {
    let input = String::from("123 456.789 -123 -23.23");
    let mut lexer = Lexer::new(input);
    assert_eq!(
        lexer.next(),
        Some(Token::new(TokenKind::Integer(123), Position(1, 1)))
    );
    assert_eq!(
        lexer.next(),
        Some(Token::new(float("456.789"), Position(1, 5)))
    );
    assert_eq!(
        lexer.next(),
        Some(Token::new(TokenKind::Minus, Position(1, 13)))
    );
    assert_eq!(
        lexer.next(),
        Some(Token::new(TokenKind::Integer(123), Position(1, 14)))
    );
    assert_eq!(
        lexer.next(),
        Some(Token::new(TokenKind::Minus, Position(1, 18)))
    );
    assert_eq!(
        lexer.next(),
        Some(Token::new(float("23.23"), Position(1, 19)))
    );
    assert_eq!(lexer.next(), None);
}

#[test]
fn test_punctuation_tokens() {
    let input = String::from(";:[]{}(),.");
    let mut lexer = Lexer::new(input);
    assert_eq!(
        lexer.next(),
        Some(Token::new(TokenKind::SemiColon, Position(1, 1)))
    );
    assert_eq!(
        lexer.next(),
        Some(Token::new(TokenKind::Colon, Position(1, 2)))
    );
    assert_eq!(
        lexer.next(),
        Some(Token::new(TokenKind::LeftBracket, Position(1, 3)))
    );
    assert_eq!(
        lexer.next(),
        Some(Token::new(TokenKind::RightBracket, Position(1, 4)))
    );
    assert_eq!(
        lexer.next(),
        Some(Token::new(TokenKind::LeftCurly, Position(1, 5)))
    );
    assert_eq!(
        lexer.next(),
        Some(Token::new(TokenKind::RightCurly, Position(1, 6)))
    );
    assert_eq!(
        lexer.next(),
        Some(Token::new(TokenKind::LeftParen, Position(1, 7)))
    );
    assert_eq!(
        lexer.next(),
        Some(Token::new(TokenKind::RightParen, Position(1, 8)))
    );
    assert_eq!(
        lexer.next(),
        Some(Token::new(TokenKind::Comma, Position(1, 9)))
    );
    assert_eq!(
        lexer.next(),
        Some(Token::new(TokenKind::Dot, Position(1, 10)))
    );
    assert_eq!(lexer.next(), None);
}

#[test]
fn test_alphabetic_token() {
    let input = String::from("let what_x return if else");
    let mut lexer = Lexer::new(input);
    assert_eq!(
        lexer.next(),
        Some(Token::new(TokenKind::Let, Position(1, 1)))
    );
    assert_eq!(
        lexer.next(),
        Some(Token::new(
            TokenKind::Identifier("what_x".to_string()),
            Position(1, 5)
        ))
    );
    assert_eq!(
        lexer.next(),
        Some(Token::new(TokenKind::Return, Position(1, 12)))
    );
    assert_eq!(
        lexer.next(),
        Some(Token::new(TokenKind::If, Position(1, 19)))
    );
    assert_eq!(
        lexer.next(),
        Some(Token::new(TokenKind::Else, Position(1, 22)))
    );
    assert_eq!(lexer.next(), None);
}

#[test]
fn test_op_tokens() {
    let input = String::from("+-*/=!<>!= <= >= ==");
    let mut lexer = Lexer::new(input);
    assert_eq!(
        lexer.next(),
        Some(Token::new(TokenKind::Plus, Position(1, 1)))
    );
    assert_eq!(
        lexer.next(),
        Some(Token::new(TokenKind::Minus, Position(1, 2)))
    );
    assert_eq!(
        lexer.next(),
        Some(Token::new(TokenKind::Asterisk, Position(1, 3)))
    );
    assert_eq!(
        lexer.next(),
        Some(Token::new(TokenKind::Slash, Position(1, 4)))
    );
    assert_eq!(
        lexer.next(),
        Some(Token::new(TokenKind::Equals, Position(1, 5)))
    );
    assert_eq!(
        lexer.next(),
        Some(Token::new(TokenKind::Bang, Position(1, 6)))
    );
    assert_eq!(
        lexer.next(),
        Some(Token::new(TokenKind::LessThan, Position(1, 7)))
    );
    assert_eq!(
        lexer.next(),
        Some(Token::new(TokenKind::GreaterThan, Position(1, 8)))
    );

    assert_eq!(
        lexer.next(),
        Some(Token::new(TokenKind::BangEquals, Position(1, 9)))
    );
    assert_eq!(
        lexer.next(),
        Some(Token::new(TokenKind::LessThanEquals, Position(1, 12)))
    );
    assert_eq!(
        lexer.next(),
        Some(Token::new(TokenKind::GreaterThanEquals, Position(1, 15)))
    );
    assert_eq!(
        lexer.next(),
        Some(Token::new(TokenKind::EqualsEquals, Position(1, 18)))
    );
    assert_eq!(lexer.next(), None);
}

#[test]
fn test_new() {
    let input = String::from("80085");
    let lexer = Lexer::new(input.clone());
    assert_eq!(lexer.input(), input);
    assert_eq!(lexer.current_pos(), 1);
    assert_eq!(lexer.current_ch(), input.chars().nth(0));
    assert_eq!(lexer.peek_ch(), input.chars().nth(1));
}

#[test]
fn test_skip_whitespaces() {
    let input = String::from("  80085");
    let mut lexer = Lexer::new(input.clone());
    lexer.skip_whitespaces();
    assert_eq!(lexer.current_pos(), 3);
    assert_eq!(lexer.current_ch(), input.chars().nth(2));
    assert_eq!(lexer.peek_ch(), input.chars().nth(3));
}

#[test]
fn test_read_char() {
    let input = String::from("ick");
    let mut lexer = Lexer::new(input.clone());
    lexer.read_char();
    assert_eq!(lexer.current_pos(), 2);
    assert_eq!(lexer.current_ch(), input.chars().nth(1));
    assert_eq!(lexer.peek_ch(), input.chars().nth(2));
    lexer.read_char();
    assert_eq!(lexer.current_pos(), 3);
    assert_eq!(lexer.current_ch(), input.chars().nth(2));
    assert_eq!(lexer.peek_ch(), input.chars().nth(3));
    lexer.read_char();
    assert_eq!(lexer.current_pos(), 4);
    assert_eq!(lexer.current_ch(), input.chars().nth(3));
    assert_eq!(lexer.peek_ch(), None);
    lexer.read_char();
    assert_eq!(lexer.current_pos(), 5);
    assert_eq!(lexer.current_ch(), None);
    assert_eq!(lexer.peek_ch(), None);
}

#[test]
fn test_peek_char_is() {
    let input = String::from("ick");
    let mut lexer = Lexer::new(input.clone());
    assert!(lexer.peek_char_is('c'));
    lexer.read_char();
    assert!(lexer.peek_char_is('k'));
    lexer.read_char();
    assert!(!lexer.peek_char_is('k'));
}

#[test]
fn test_position_with_newlines() {
    let input = String::from("if\ntrue");
    let mut lexer = Lexer::new(input);

    let token1 = lexer.next().unwrap();
    assert_eq!(token1, Token::new(TokenKind::If, Position(1, 1)));

    let token2 = lexer.next().unwrap();
    assert_eq!(token2, Token::new(TokenKind::True, Position(2, 1)));
}

#[test]
fn test_multiline_position() {
    let input = String::from("let x = 10;\nif x > 5 {\n  return true;\n}");
    let mut lexer = Lexer::new(input);

    assert_eq!(
        lexer.next(),
        Some(Token::new(TokenKind::Let, Position(1, 1)))
    );
    assert_eq!(
        lexer.next(),
        Some(Token::new(
            TokenKind::Identifier("x".to_string()),
            Position(1, 5)
        ))
    );
    assert_eq!(
        lexer.next(),
        Some(Token::new(TokenKind::Equals, Position(1, 7)))
    );
    assert_eq!(
        lexer.next(),
        Some(Token::new(TokenKind::Integer(10), Position(1, 9)))
    );
    assert_eq!(
        lexer.next(),
        Some(Token::new(TokenKind::SemiColon, Position(1, 11)))
    );

    assert_eq!(
        lexer.next(),
        Some(Token::new(TokenKind::If, Position(2, 1)))
    );
    assert_eq!(
        lexer.next(),
        Some(Token::new(
            TokenKind::Identifier("x".to_string()),
            Position(2, 4)
        ))
    );
    assert_eq!(
        lexer.next(),
        Some(Token::new(TokenKind::GreaterThan, Position(2, 6)))
    );
    assert_eq!(
        lexer.next(),
        Some(Token::new(TokenKind::Integer(5), Position(2, 8)))
    );
    assert_eq!(
        lexer.next(),
        Some(Token::new(TokenKind::LeftCurly, Position(2, 10)))
    );

    assert_eq!(
        lexer.next(),
        Some(Token::new(TokenKind::Return, Position(3, 3)))
    );
    assert_eq!(
        lexer.next(),
        Some(Token::new(TokenKind::True, Position(3, 10)))
    );
    assert_eq!(
        lexer.next(),
        Some(Token::new(TokenKind::SemiColon, Position(3, 14)))
    );

    assert_eq!(
        lexer.next(),
        Some(Token::new(TokenKind::RightCurly, Position(4, 1)))
    );
}

#[test]
fn comment_at_the_end_of_the_text_ends_the_tokens() {
    let mut lexer = Lexer::new(String::from("1 // nothing more"));
    assert_eq!(
        lexer.next(),
        Some(Token::new(TokenKind::Integer(1), Position(1, 1)))
    );
    assert_eq!(lexer.next(), None);
    assert_eq!(lexer.next(), None);
}

#[test]
fn comment_runs_to_the_end_of_the_line() {
    let mut lexer = Lexer::new(String::from("a // b c\nd"));
    assert_eq!(
        lexer.next(),
        Some(Token::new(TokenKind::Identifier("a".to_string()), Position(1, 1)))
    );
    assert_eq!(
        lexer.next(),
        Some(Token::new(TokenKind::Identifier("d".to_string()), Position(2, 1)))
    );
    assert_eq!(lexer.next(), None);
}

#[test]
fn string_literals_end_at_the_quote_or_at_the_line_break() {
    let mut lexer = Lexer::new(String::from("\"ab\" \"cd\nef"));
    assert_eq!(
        lexer.next(),
        Some(Token::new(TokenKind::String("ab".to_string()), Position(1, 1)))
    );
    assert_eq!(
        lexer.next(),
        Some(Token::new(TokenKind::String("cd".to_string()), Position(1, 6)))
    );
    assert_eq!(
        lexer.next(),
        Some(Token::new(TokenKind::Identifier("ef".to_string()), Position(2, 1)))
    );
    assert_eq!(lexer.next(), None);
}

#[test]
fn unterminated_string_at_the_end_of_the_text_is_cut_there() {
    let mut lexer = Lexer::new(String::from("\"abc"));
    assert_eq!(
        lexer.next(),
        Some(Token::new(TokenKind::String("abc".to_string()), Position(1, 1)))
    );
    assert_eq!(lexer.next(), None);
}

#[test]
fn other_characters_are_illegal_tokens() {
    let mut lexer = Lexer::new(String::from("a # b"));
    lexer.next();
    assert_eq!(
        lexer.next(),
        Some(Token::new(TokenKind::ILLEGAL('#'), Position(1, 3)))
    );
}

#[test]
fn two_character_operators_are_read_greedily() {
    let mut lexer = Lexer::new(String::from("a<=b"));
    lexer.next();
    assert_eq!(
        lexer.next(),
        Some(Token::new(TokenKind::LessThanEquals, Position(1, 2)))
    );
    assert_eq!(
        lexer.next(),
        Some(Token::new(TokenKind::Identifier("b".to_string()), Position(1, 4)))
    );
}

#[test]
fn collect_yields_every_token() {
    let mut lexer = Lexer::new(String::from("let x = 1.5;"));
    let tokens = lexer.collect().unwrap();
    let kinds: Vec<TokenKind> = tokens.into_iter().map(|t| t.kind).collect();
    assert_eq!(
        kinds,
        vec![
            TokenKind::Let,
            TokenKind::Identifier("x".to_string()),
            TokenKind::Equals,
            float("1.5"),
            TokenKind::SemiColon,
        ]
    );
}

#[test]
fn malformed_numbers_are_reported() {
    assert_eq!(Lexer::new(String::from("1.2.3")).collect(), None);
    assert_eq!(Lexer::new(String::from("x = 99999999999999999999")).collect(), None);
    assert_eq!(Lexer::new(String::from("9223372036854775807")).collect().map(|t| t.len()), Some(1));
    assert_eq!(Lexer::new(String::from("9223372036854775808")).collect(), None);
    assert_eq!(Lexer::new(String::from("5.")).collect().map(|t| t.len()), Some(1));
}

#[test]
fn keywords_and_identifiers() {
    assert_eq!(TokenKind::new_alphabetic("fn".to_string()), TokenKind::Function);
    assert_eq!(TokenKind::new_alphabetic("true".to_string()), TokenKind::True);
    assert_eq!(TokenKind::new_alphabetic("false".to_string()), TokenKind::False);
    assert_eq!(
        TokenKind::new_alphabetic("lets".to_string()),
        TokenKind::Identifier("lets".to_string())
    );
}

#[test]
fn token_literals() {
    assert_eq!(TokenKind::Plus.literal(), "+");
    assert_eq!(TokenKind::GreaterThanEquals.literal(), ">=");
    assert_eq!(TokenKind::Integer(-42).literal(), "-42");
    assert_eq!(TokenKind::Integer(0).literal(), "0");
    assert_eq!(TokenKind::Integer(i64::MIN).literal(), "-9223372036854775808");
    assert_eq!(TokenKind::Integer(i64::MAX).literal(), "9223372036854775807");
    assert_eq!(float("2.50").literal(), "2.50");
    assert_eq!(TokenKind::ILLEGAL('#').literal(), "#");
    assert_eq!(TokenKind::Function.literal(), "fn");
    assert_eq!(Token::default(), Token::new(TokenKind::ILLEGAL(' '), Position(0, 0)));
}

#[test]
fn characters_beyond_ascii() {
    let mut lexer = Lexer::new(String::from("let é\u{a0}= ω_1"));
    assert_eq!(lexer.next(), Some(Token::new(TokenKind::Let, Position(1, 1))));
    assert_eq!(
        lexer.next(),
        Some(Token::new(TokenKind::Identifier("é".to_string()), Position(1, 5)))
    );
    assert_eq!(lexer.next(), Some(Token::new(TokenKind::Equals, Position(1, 7))));
    assert_eq!(
        lexer.next(),
        Some(Token::new(TokenKind::Identifier("ω_".to_string()), Position(1, 9)))
    );
    assert_eq!(lexer.next(), Some(Token::new(TokenKind::Integer(1), Position(1, 11))));
    assert_eq!(lexer.next(), None);

    // A numeric character that is no ASCII digit starts a number that is
    // not well formed.
    assert_eq!(Lexer::new(String::from("\u{663}")).collect(), None);
    assert_eq!(Lexer::new(String::from("1\u{663}")).collect(), None);

    let mut lexer = Lexer::new(String::from("\u{1f49d}"));
    assert_eq!(
        lexer.next(),
        Some(Token::new(TokenKind::ILLEGAL('\u{1f49d}'), Position(1, 1)))
    );
}

#[test]
fn white_space_of_every_kind_is_skipped() {
    let mut lexer = Lexer::new(String::from(" \t\r\n\u{b}\u{c}a"));
    assert_eq!(
        lexer.next(),
        Some(Token::new(TokenKind::Identifier("a".to_string()), Position(2, 3)))
    );
    assert_eq!(Lexer::new(String::new()).next(), None);
    assert_eq!(Lexer::new(String::from("  \n ")).next(), None);
}

#[test]
fn the_text_and_the_position_of_the_tokenizer() {
    let mut lexer = Lexer::new(String::from("a\nbc"));
    assert_eq!(lexer.position(), Position(1, 1));
    lexer.read_char();
    assert_eq!(lexer.position(), Position(2, 0));
    lexer.read_char();
    assert_eq!(lexer.position(), Position(2, 1));
    assert!(lexer.current_is_alphabetic());
    assert!(!lexer.current_is_numeric());
    lexer.read_char();
    lexer.read_char();
    lexer.read_char();
    assert_eq!(lexer.position(), Position(2, 2));
    assert_eq!(lexer.input(), "a\nbc");
}
