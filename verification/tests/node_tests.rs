use tsykr::ast::{
    Array, AssignStatement, Block, Boolean, ConditionStatement, Expression, ExpressionStatement,
    Float, FunctionCall, FunctionDeclaration, FunctionExpression, Identifier, Index, Infixed,
    Integer, LetStatement, Prefixed, Program, ReturnStatement, Statement, StringLiteral,
};
use tsykr::render::Node;
use tsykr::token::{Position, Token, TokenKind};

#[test]
fn test_array_node() {
    let token = Token::new(TokenKind::LeftBracket, Position(0, 0));
    let arr = Array::new(
        token.clone(),
        vec![Box::new(Expression::new_boolean(Token::new(
            TokenKind::True,
            Position(0, 0),
        )))],
    );

    assert_eq!(arr.token, token);
    assert_eq!(arr.to_string(), "[true]");
    assert_eq!(arr.token_literal(), token.literal());
    assert_eq!(arr.elements.len(), 1);
}

#[test]
fn test_boolean_node() {
    let token = Token::new(TokenKind::True, Position(0, 0));
    let boolean = Boolean::new(token.clone());

    assert_eq!(boolean.token, token);
    assert_eq!(boolean.to_string(), token.literal());
    assert_eq!(boolean.token_literal(), token.literal());
}

#[test]
fn expr_call_test_function_call() {
    let call = FunctionCall::new(
        Token::new(TokenKind::LeftParen, Position(0, 0)),
        Box::new(Expression::new_identifier(Token::new(
            TokenKind::Identifier("my_func".to_string()),
            Position(0, 0),
        ))),
        vec![Box::new(Expression::new_integer(Token::new(
            TokenKind::Integer(42),
            Position(0, 0),
        )))],
    );

    assert_eq!(call.function.to_string(), "my_func");
    assert_eq!(call.token_literal(), "(");
    assert_eq!(call.arguments.len(), 1);
    assert_eq!(call.arguments[0].to_string(), "42");
    assert_eq!(call.to_string(), "my_func(42)");
}

#[test]
fn test_float_node() {
    let token = Token::new(TokenKind::Float("2.23".to_string()), Position(0, 0));
    let float = Float::new(token.clone());

    assert_eq!(float.token, token);
    assert_eq!(float.to_string(), token.literal());
    assert_eq!(float.token_literal(), token.literal());
}

fn let_x_return_x() -> Block {
    Block::new(
        Token::new(TokenKind::LeftCurly, Position(0, 0)),
        vec![
            Box::new(Statement::new_let(
                Token::new(TokenKind::Let, Position(0, 0)),
                Identifier::new(Token::new(
                    TokenKind::Identifier("x".to_string()),
                    Position(0, 0),
                )),
                Box::new(Expression::new_integer(Token::new(
                    TokenKind::Integer(5),
                    Position(0, 0),
                ))),
            )),
            Box::new(Statement::new_return(
                Token::new(TokenKind::Return, Position(0, 0)),
                Box::new(Expression::new_identifier(Token::new(
                    TokenKind::Identifier("x".to_string()),
                    Position(0, 0),
                ))),
            )),
        ],
    )
}

fn params_a_b() -> Vec<Identifier> {
    vec![
        Identifier::new(Token::new(
            TokenKind::Identifier("_a".to_string()),
            Position(0, 0),
        )),
        Identifier::new(Token::new(
            TokenKind::Identifier("_b".to_string()),
            Position(0, 0),
        )),
    ]
}

#[test]
fn expr_function_test_function_expression() {
    let block = let_x_return_x();
    let params = params_a_b();
    let function = FunctionExpression::new(
        Token::new(TokenKind::Function, Position(0, 0)),
        params,
        block,
    );

    assert_eq!(
        function.token,
        Token::new(TokenKind::Function, Position(0, 0))
    );
    assert_eq!(function.token_literal(), function.token.literal());
    assert_eq!(
        function.to_string(),
        "fn (_a, _b) {\n  let x = 5\n  return x\n}"
    )
}

#[test]
fn test_identifier_node() {
    let token = Token::new(TokenKind::Identifier("cool".to_string()), Position(0, 0));
    let ident = Identifier::new(token.clone());

    assert_eq!(ident.token, token);
    assert_eq!(ident.to_string(), token.literal());
    assert_eq!(ident.token_literal(), token.literal());
}

#[test]
fn test_index_node() {
    let token = Token::new(TokenKind::LeftBracket, Position(0, 0));
    let arr = Expression::new_array(
        token.clone(),
        vec![Box::new(Expression::new_boolean(Token::new(
            TokenKind::True,
            Position(0, 0),
        )))],
    );

    let idx = Index::new(
        token.clone(),
        Box::new(arr),
        Box::new(Expression::new_integer(Token::new(
            TokenKind::Integer(0),
            Position(0, 0),
        ))),
    );

    assert_eq!(idx.token, token);
    assert_eq!(idx.to_string(), "[true][0]");
    assert_eq!(idx.token_literal(), token.literal());
}

#[test]
fn test_infixed_node() {
    let token = Token::new(TokenKind::Minus, Position(0, 0));
    let left = Box::new(Expression::new_integer(Token::new(
        TokenKind::Integer(42),
        Position(0, 0),
    )));
    let right = Box::new(Expression::new_integer(Token::new(
        TokenKind::Integer(42),
        Position(0, 0),
    )));
    let infixed = Infixed::new(token.clone(), left, right);

    assert_eq!(infixed.op, token);
    assert_eq!(infixed.to_string(), "(42-42)");
    assert_eq!(infixed.token_literal(), token.literal());
}

#[test]
fn test_integer_node() {
    let token = Token::new(TokenKind::Integer(42), Position(0, 0));
    let integer = Integer::new(token.clone());

    assert_eq!(integer.token, token);
    assert_eq!(integer.to_string(), token.literal());
    assert_eq!(integer.token_literal(), token.literal());
}

#[test]
fn test_prefixed_node() {
    let token = Token::new(TokenKind::Minus, Position(0, 0));
    let right = Box::new(Expression::new_integer(Token::new(
        TokenKind::Integer(42),
        Position(0, 0),
    )));
    let prefixed = Prefixed::new(token.clone(), right);

    assert_eq!(prefixed.op, token);
    assert_eq!(prefixed.to_string(), "(-42)");
    assert_eq!(prefixed.token_literal(), token.literal());
}

#[test]
fn test_string_node() {
    let token = Token::new(TokenKind::String("yeah".to_string()), Position(0, 0));
    let string = StringLiteral::new(token.clone());

    assert_eq!(string.token, token);
    assert_eq!(string.to_string(), token.literal());
    assert_eq!(string.token_literal(), token.literal());
}

#[test]
fn test_program() {
    let mut program = Program::new();
    program.push_statement(Box::new(Statement::new_expression(
        Token::new(TokenKind::Integer(5), Position(0, 0)),
        Box::new(Expression::new_integer(Token::new(
            TokenKind::Integer(5),
            Position(0, 0),
        ))),
    )));
    program.push_statement(Box::new(Statement::new_return(
        Token::new(TokenKind::Return, Position(0, 0)),
        Box::new(Expression::new_boolean(Token::new(
            TokenKind::True,
            Position(0, 0),
        ))),
    )));

    assert_eq!(program.statements.len(), 2);
    assert_eq!(program.token_literal(), "");
    assert_eq!(program.to_string(), "5\nreturn true")
}

#[test]
fn test_assign_statement() {
    let ident = Identifier::new(Token::new(
        TokenKind::Identifier("who_cares".to_string()),
        Position(0, 0),
    ));
    let int = Expression::new_integer(Token::new(TokenKind::Integer(69), Position(0, 0)));

    let stmt = AssignStatement::new(ident, Box::new(int));

    assert_eq!(stmt.token_literal(), "who_cares");
    assert_eq!(stmt.to_string(), "who_cares = 69");
}

#[test]
fn test_block_statement() {
    let block = let_x_return_x();

    assert_eq!(
        block.token_literal(),
        Token::new(TokenKind::LeftCurly, Position(0, 0)).literal()
    );
    assert_eq!(block.to_string(), "{\n  let x = 5\n  return x\n}");
}

#[test]
fn test_condition_statement() {
    let token = Token::new(TokenKind::If, Position(0, 0));
    let cond = Expression::new_boolean(Token::new(TokenKind::True, Position(0, 0)));

    let if_true = Block::new(Token::new(TokenKind::LeftCurly, Position(0, 0)), vec![]);

    let stmt = ConditionStatement::new(token.clone(), Box::new(cond), if_true, None);

    assert_eq!(stmt.token_literal(), token.literal());
    assert_eq!(stmt.to_string(), "if (true) {\n}");
}

#[test]
fn test_expression_statement() {
    let token = Token::new(TokenKind::Minus, Position(0, 0));
    let left = Box::new(Expression::new_integer(Token::new(
        TokenKind::Integer(42),
        Position(0, 0),
    )));
    let right = Box::new(Expression::new_integer(Token::new(
        TokenKind::Integer(42),
        Position(0, 0),
    )));
    let infixed = Expression::new_infixed(token.clone(), left, right);
    let expression_statement = ExpressionStatement::new(token.clone(), Box::new(infixed));

    assert_eq!(expression_statement.token, token);
    assert_eq!(expression_statement.expression.to_string(), "(42-42)");
    assert_eq!(expression_statement.token_literal(), token.literal());
}

#[test]
fn test_function_declaration_statement() {
    let block = let_x_return_x();
    let params = params_a_b();
    let function = FunctionDeclaration::new(
        Token::new(TokenKind::Function, Position(0, 0)),
        Identifier::new(Token::new(
            TokenKind::Identifier("add".to_string()),
            Position(0, 0),
        )),
        params,
        block,
    );

    assert_eq!(
        function.token,
        Token::new(TokenKind::Function, Position(0, 0))
    );
    assert_eq!(function.token_literal(), function.token.literal());
    assert_eq!(
        function.to_string(),
        "fn add(_a, _b) {\n  let x = 5\n  return x\n}"
    )
}

#[test]
fn test_let_statement() {
    let token = Token::new(TokenKind::Let, Position(0, 0));
    let ident = Identifier::new(Token::new(
        TokenKind::Identifier("who_cares".to_string()),
        Position(0, 0),
    ));
    let int = Expression::new_integer(Token::new(TokenKind::Integer(69), Position(0, 0)));

    let stmt = LetStatement::new(token.clone(), ident, Box::new(int));

    assert_eq!(stmt.token_literal(), token.literal());
    assert_eq!(stmt.to_string(), "let who_cares = 69");
}

#[test]
fn test_return_statement() {
    let token = Token::new(TokenKind::Return, Position(0, 0));
    let bool = Expression::new_boolean(Token::new(TokenKind::True, Position(0, 0)));

    let stmt = ReturnStatement::new(token.clone(), Box::new(bool));

    assert_eq!(stmt.token_literal(), token.literal());
    assert_eq!(stmt.to_string(), "return true");
}

#[test]
fn condition_with_else_renders_both_branches() {
    let token = Token::new(TokenKind::If, Position(0, 0));
    let cond = Expression::new_boolean(Token::new(TokenKind::False, Position(0, 0)));
    let stmt = Statement::new_condition(
        token,
        Box::new(cond),
        Block::new(Token::new(TokenKind::LeftCurly, Position(0, 0)), vec![]),
        Some(let_x_return_x()),
    );
    assert_eq!(
        stmt.to_string(),
        "if (false) {\n} else {\n  let x = 5\n  return x\n}"
    );
    assert_eq!(stmt.token_literal(), "if");
}

#[test]
fn nodes_offer_their_text_through_the_trait() {
    fn texts<N: Node>(node: &N) -> (String, String) {
        (node.token_literal(), node.to_string())
    }
    let expression = Expression::new_infixed(
        Token::new(TokenKind::Asterisk, Position(1, 3)),
        Box::new(Expression::new_integer(Token::new(TokenKind::Integer(2), Position(1, 1)))),
        Box::new(Expression::new_identifier(Token::new(
            TokenKind::Identifier("x".to_string()),
            Position(1, 5),
        ))),
    );
    assert_eq!(texts(&expression), ("*".to_string(), "(2*x)".to_string()));
    let block = let_x_return_x();
    assert_eq!(
        texts(&block),
        ("{".to_string(), "{\n  let x = 5\n  return x\n}".to_string())
    );
    let statement = Statement::Block(let_x_return_x());
    assert_eq!(texts(&statement).0, "{");
    let mut program = Program::new();
    program.push_statement(Box::new(statement));
    assert_eq!(
        texts(&program),
        ("".to_string(), "{\n  let x = 5\n  return x\n}".to_string())
    );
}

#[test]
fn array_and_call_lists_are_separated_by_comma_and_space() {
    let number = |i: i64| {
        Box::new(Expression::new_integer(Token::new(
            TokenKind::Integer(i),
            Position(0, 0),
        )))
    };
    let array = Expression::new_array(
        Token::new(TokenKind::LeftBracket, Position(0, 0)),
        vec![number(1), number(2), number(3)],
    );
    assert_eq!(array.to_string(), "[1, 2, 3]");
    let empty = Expression::new_array(Token::new(TokenKind::LeftBracket, Position(0, 0)), vec![]);
    assert_eq!(empty.to_string(), "[]");
    let call = Expression::new_function_call(
        Token::new(TokenKind::LeftParen, Position(0, 0)),
        Box::new(array),
        vec![number(4), number(5)],
    );
    assert_eq!(call.to_string(), "[1, 2, 3](4, 5)");
}
