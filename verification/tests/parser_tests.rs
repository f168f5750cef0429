use tsykr::ast::{Expression, Program, Statement};
use tsykr::grammar::ParserError;
use tsykr::lexer::Lexer;
use tsykr::parser::Parser;
use tsykr::precedence::Precedence;
use tsykr::token::{Position, Token, TokenKind};

/// Helper function to create a simple lexer from a string input
fn create_lexer(input: &str) -> Lexer {
    Lexer::new(input.to_string())
}

fn parse(input: &str) -> Result<Program, Vec<ParserError>> {
    let lexer = create_lexer(input);
    let mut parser = Parser::new(lexer);
    parser.parse()
}

/// Helper function to parse and extract the first statement
fn parse_first_statement(input: &str) -> Result<Box<Statement>, Vec<ParserError>> {
    let program = parse(input)?;
    Ok(program.statements.into_iter().next().unwrap())
}

fn text_of(input: &str) -> String {
    parse(input).unwrap().to_string()
}

#[test]
fn test_let_statement_parsing() {
    let input = "let x = 5;";
    let statement = parse_first_statement(input).unwrap();

    match *statement {
        Statement::LetStatement(let_stmt) => {
            assert_eq!(let_stmt.identifier.token.literal(), "x");

            match let_stmt.value.as_ref() {
                Expression::Integer(int_expr) => {
                    assert_eq!(int_expr.token.literal(), "5");
                }
                _ => panic!("Expected integer expression"),
            }
        }
        _ => panic!("Expected let statement"),
    }
}

#[test]
fn test_return_statement_parsing() {
    let input = "return 5;";
    let statement = parse_first_statement(input).unwrap();

    match *statement {
        Statement::ReturnStatement(return_stmt) => match return_stmt.value.as_ref() {
            Expression::Integer(int_expr) => {
                assert_eq!(int_expr.token.literal(), "5");
            }
            _ => panic!("Expected integer expression"),
        },
        _ => panic!("Expected return statement"),
    }
}

#[test]
fn test_identifier_expression() {
    let input = "foobar;";
    let statement = parse_first_statement(input).unwrap();

    match *statement {
        Statement::ExpressionStatement(expr_stmt) => match expr_stmt.expression.as_ref() {
            Expression::Identifier(ident) => {
                assert_eq!(ident.token.literal(), "foobar");
            }
            _ => panic!("Expected identifier expression"),
        },
        _ => panic!("Expected expression statement"),
    }
}

#[test]
fn test_integer_literal_expression() {
    let input = "5;";
    let statement = parse_first_statement(input).unwrap();

    match *statement {
        Statement::ExpressionStatement(expr_stmt) => match expr_stmt.expression.as_ref() {
            Expression::Integer(int_expr) => {
                assert_eq!(int_expr.token.literal(), "5");
            }
            _ => panic!("Expected integer expression"),
        },
        _ => panic!("Expected expression statement"),
    }
}

#[test]
fn test_float_literal_expression() {
    let input = "5.5;";
    let statement = parse_first_statement(input).unwrap();

    match *statement {
        Statement::ExpressionStatement(expr_stmt) => match expr_stmt.expression.as_ref() {
            Expression::Float(float_expr) => {
                assert_eq!(float_expr.token.literal(), "5.5");
            }
            _ => panic!("Expected float expression"),
        },
        _ => panic!("Expected expression statement"),
    }
}

#[test]
fn test_boolean_expressions() {
    let inputs = vec!["true;", "false;"];

    for input in inputs {
        let statement = parse_first_statement(input).unwrap();

        match *statement {
            Statement::ExpressionStatement(expr_stmt) => match expr_stmt.expression.as_ref() {
                Expression::Boolean(bool_expr) => {
                    assert_eq!(bool_expr.token.literal(), input.trim_end_matches(';'));
                }
                _ => panic!("Expected boolean expression"),
            },
            _ => panic!("Expected expression statement"),
        }
    }
}

#[test]
fn test_prefix_expressions() {
    let inputs = vec![
        ("!5;", TokenKind::Bang, "5"),
        ("-15;", TokenKind::Minus, "15"),
    ];

    for (input, expected_prefix, expected_value) in inputs {
        let statement = parse_first_statement(input).unwrap();

        match *statement {
            Statement::ExpressionStatement(expr_stmt) => match expr_stmt.expression.as_ref() {
                Expression::Prefixed(prefix_expr) => {
                    assert_eq!(prefix_expr.op.kind, expected_prefix);
                    match prefix_expr.right.as_ref() {
                        Expression::Integer(int_expr) => {
                            assert_eq!(int_expr.token.literal(), expected_value);
                        }
                        _ => panic!("Expected integer expression"),
                    }
                }
                _ => panic!("Expected prefixed expression"),
            },
            _ => panic!("Expected expression statement"),
        }
    }
}

#[test]
fn test_infix_expressions() {
    let inputs = vec![
        ("5 + 5;", "5", TokenKind::Plus, "5"),
        ("5 - 5;", "5", TokenKind::Minus, "5"),
        ("5 * 5;", "5", TokenKind::Asterisk, "5"),
        ("5 / 5;", "5", TokenKind::Slash, "5"),
        ("5 > 5;", "5", TokenKind::GreaterThan, "5"),
        ("5 < 5;", "5", TokenKind::LessThan, "5"),
        ("5 == 5;", "5", TokenKind::EqualsEquals, "5"),
        ("5 != 5;", "5", TokenKind::BangEquals, "5"),
    ];

    for (input, expected_left, expected_op, expected_right) in inputs {
        let statement = parse_first_statement(input).unwrap();

        match *statement {
            Statement::ExpressionStatement(expr_stmt) => match expr_stmt.expression.as_ref() {
                Expression::Infixed(infix_expr) => {
                    assert_eq!(infix_expr.op.kind, expected_op);

                    match infix_expr.left.as_ref() {
                        Expression::Integer(left_expr) => {
                            assert_eq!(left_expr.token.literal(), expected_left);
                        }
                        _ => panic!("Expected left integer expression"),
                    }

                    match infix_expr.right.as_ref() {
                        Expression::Integer(right_expr) => {
                            assert_eq!(right_expr.token.literal(), expected_right);
                        }
                        _ => panic!("Expected right integer expression"),
                    }
                }
                _ => panic!("Expected infixed expression"),
            },
            _ => panic!("Expected expression statement"),
        }
    }
}

#[test]
fn test_function_declaration() {
    let input = "fn add(x, y) { x + y; }";
    let statement = parse_first_statement(input).unwrap();

    match *statement {
        Statement::FunctionDeclaration(func_decl) => {
            assert_eq!(func_decl.identifier.token.literal(), "add");
            assert_eq!(func_decl.parameters.len(), 2);
            assert_eq!(func_decl.parameters[0].token.literal(), "x");
            assert_eq!(func_decl.parameters[1].token.literal(), "y");

            // Verify body statements
            assert_eq!(func_decl.body.statements.len(), 1);
        }
        _ => panic!("Expected function declaration"),
    }
}

#[test]
fn parser_test_function_expression() {
    let input = "fn(x, y) { x + y; };";
    let statement = parse_first_statement(input).unwrap();

    match *statement {
        Statement::ExpressionStatement(expr_stmt) => {
            match expr_stmt.expression.as_ref() {
                Expression::Function(func_expr) => {
                    assert_eq!(func_expr.parameters.len(), 2);
                    assert_eq!(func_expr.parameters[0].token.literal(), "x");
                    assert_eq!(func_expr.parameters[1].token.literal(), "y");

                    // Verify body statements
                    assert_eq!(func_expr.body.statements.len(), 1);
                }
                _ => panic!("Expected function expression"),
            }
        }
        _ => panic!("Expected expression statement"),
    }
}

#[test]
fn parser_test_function_call() {
    let input = "add(1, 2 * 3);";
    let statement = parse_first_statement(input).unwrap();

    match *statement {
        Statement::ExpressionStatement(expr_stmt) => {
            match expr_stmt.expression.as_ref() {
                Expression::FunctionCall(call_expr) => {
                    // Check callee
                    match call_expr.function.as_ref() {
                        Expression::Identifier(ident) => {
                            assert_eq!(ident.token.literal(), "add");
                        }
                        _ => panic!("Expected identifier as function"),
                    }

                    // Check arguments
                    assert_eq!(call_expr.arguments.len(), 2);

                    // First argument should be simple integer
                    match call_expr.arguments[0].as_ref() {
                        Expression::Integer(int_expr) => {
                            assert_eq!(int_expr.token.literal(), "1");
                        }
                        _ => panic!("Expected first argument to be an integer"),
                    }

                    // Second argument should be an infix expression
                    match call_expr.arguments[1].as_ref() {
                        Expression::Infixed(infix_expr) => {
                            assert_eq!(infix_expr.op.kind, TokenKind::Asterisk);
                        }
                        _ => panic!("Expected second argument to be an infix expression"),
                    }
                }
                _ => panic!("Expected function call expression"),
            }
        }
        _ => panic!("Expected expression statement"),
    }
}

#[test]
fn test_parsing_error_handling() {
    let inputs = vec![
        "let x = ;", // Missing value
        "let = 5;",  // Missing identifier
        "return;",   // Missing return value
    ];

    for input in inputs {
        let lexer = create_lexer(input);
        let mut parser = Parser::new(lexer);
        let result = parser.parse();

        assert!(
            result.is_err(),
            "Expected parsing to fail for input: {}",
            input
        );
    }
}

#[test]
fn product_binds_tighter_than_sum() {
    assert_eq!(text_of("1 + 2 * 3"), "(1+(2*3))");
    assert_eq!(text_of("(1 + 2) * 3"), "((1+2)*3)");
}

#[test]
fn operators_of_one_precedence_associate_to_the_left() {
    assert_eq!(text_of("1 - 2 - 3"), "((1-2)-3)");
    assert_eq!(text_of("8 / 4 / 2;"), "((8/4)/2)");
    assert_eq!(text_of("a == b != c"), "((a==b)!=c)");
}

#[test]
fn the_precedence_ladder() {
    assert_eq!(text_of("a == b < c + d * -e"), "(a==(b<(c+(d*(-e)))))");
    assert_eq!(text_of("-a * b"), "((-a)*b)");
    assert_eq!(text_of("!f(x)"), "(!f(x))");
    assert_eq!(text_of("a + f(b)[1] * 2"), "(a+(f(b)[1]*2))");
    assert_eq!(text_of("a <= b == c >= d"), "((a<=b)==(c>=d))");
    assert!(Precedence::Lowest < Precedence::Equals);
    assert!(Precedence::Equals < Precedence::LessOrGreater);
    assert!(Precedence::LessOrGreater < Precedence::Sum);
    assert!(Precedence::Sum < Precedence::Product);
    assert!(Precedence::Product < Precedence::Prefix);
    assert!(Precedence::Prefix < Precedence::Call);
    assert!(Precedence::Call < Precedence::Index);
    assert!(Precedence::Sum.lower_than(&Precedence::Product));
    assert!(!Precedence::Product.lower_than(&Precedence::Product));
    assert_eq!(Precedence::Index.level(), 7);
}

#[test]
fn precedence_of_tokens() {
    let at = |kind: TokenKind| Precedence::from_token(Token::new(kind, Position(1, 1)));
    assert_eq!(at(TokenKind::EqualsEquals), Precedence::Equals);
    assert_eq!(at(TokenKind::BangEquals), Precedence::Equals);
    assert_eq!(at(TokenKind::LessThanEquals), Precedence::LessOrGreater);
    assert_eq!(at(TokenKind::Minus), Precedence::Sum);
    assert_eq!(at(TokenKind::Slash), Precedence::Product);
    assert_eq!(at(TokenKind::LeftParen), Precedence::Call);
    assert_eq!(at(TokenKind::LeftBracket), Precedence::Index);
    assert_eq!(at(TokenKind::SemiColon), Precedence::Lowest);
    assert_eq!(at(TokenKind::Bang), Precedence::Lowest);
}

#[test]
fn strings_arrays_and_indexing() {
    assert_eq!(text_of("\"ab\"[0]"), "ab[0]");
    assert_eq!(text_of("[1, 2 + 3, [4]][5]"), "[1, (2+3), [4]][5]");
    assert_eq!(text_of("[]"), "[]");
    assert_eq!(text_of("a[1][2]"), "a[1][2]");
}

#[test]
fn blocks_and_functions() {
    assert_eq!(
        text_of("fn add(x, y) { return x + y; }"),
        "fn add(x, y) {\n  return (x+y)\n}"
    );
    assert_eq!(text_of("{ let a = 1; a }"), "{\n  let a = 1\n  a\n}");
    assert_eq!(text_of("fn() { }()"), "fn () {\n}()");
    assert_eq!(text_of("let f = fn(a) { a; };"), "let f = fn (a) {\n  a\n}");
    assert_eq!(text_of("1; 2; 3"), "1\n2\n3");
}

#[test]
fn every_error_is_collected() {
    let errors = parse("let = 5; let = 6;").unwrap_err();
    assert_eq!(
        errors,
        vec![
            ParserError::InvalidToken(Token::new(TokenKind::Equals, Position(1, 5))),
            ParserError::InvalidToken(Token::new(TokenKind::Equals, Position(1, 14))),
        ]
    );
}

#[test]
fn one_malformed_statement_is_one_error() {
    let errors = parse("let x = 1; let = 5; let y = 2;").unwrap_err();
    assert_eq!(errors.len(), 1);
    assert_eq!(parse("").unwrap().statements.len(), 0);
}

#[test]
fn the_kinds_of_parse_errors() {
    assert_eq!(
        parse("let x 5").unwrap_err()[0],
        ParserError::UnexpectedToken {
            expected: TokenKind::Equals,
            actual: Token::new(TokenKind::Integer(5), Position(1, 7)),
        }
    );
    assert_eq!(
        parse("(1 + 2").unwrap_err(),
        vec![ParserError::UnexpectedEOFWithExpectation(TokenKind::RightParen)]
    );
    assert_eq!(parse("1 +").unwrap_err(), vec![ParserError::UnexpectedEOF]);
    assert_eq!(
        parse("#").unwrap_err(),
        vec![ParserError::InvalidToken(Token::new(
            TokenKind::ILLEGAL('#'),
            Position(1, 1)
        ))]
    );
    assert_eq!(
        parse("{ 1").unwrap_err(),
        vec![ParserError::UnexpectedEOFWithExpectation(TokenKind::RightCurly)]
    );
    assert_eq!(
        parse("fn f(a b) {}").unwrap_err()[0],
        ParserError::UnexpectedToken {
            expected: TokenKind::RightParen,
            actual: Token::new(TokenKind::Identifier("b".to_string()), Position(1, 8)),
        }
    );
}

#[test]
fn assignment_and_condition_are_not_in_the_grammar() {
    assert!(parse("x = 5;").is_err());
    assert!(parse("if (true) { 1 }").is_err());
}

#[test]
fn a_parser_is_refused_for_a_malformed_number() {
    assert!(Parser::try_new(create_lexer("1.2.3")).is_none());
    let mut parser = Parser::try_new(create_lexer("1.5 + 2")).unwrap();
    assert_eq!(parser.parse().unwrap().to_string(), "(1.5+2)");
}

#[test]
fn rendering_and_parsing_again_gives_the_same_text() {
    for input in [
        "1 + 2 * 3",
        "-(a + b) * !c",
        "a < b == c > d",
        "((1))",
        "-1 - -2",
        "f(1, 2 + 3)[4] * [5, [6, g()], -7][h(i)(j)]",
        "1.50 / x_y >= true != !false",
        "(a + b)(c)[d]",
    ] {
        let once = text_of(input);
        let twice = text_of(&once);
        assert_eq!(once, twice);
    }
}
