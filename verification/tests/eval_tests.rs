use std::rc::Rc;
use tsykr::ast::{
    Array, AssignStatement, Block, Boolean, ConditionStatement, Expression, Float,
    FunctionCall, FunctionDeclaration, FunctionExpression, Identifier, Index, Infixed, Integer,
    LetStatement, Prefixed, Program, ReturnStatement, Statement, StringLiteral,
};
use tsykr::env::ExecutionEnvironment;
use tsykr::eval::{EvalError, FloatOp, FloatRequest, Operand};
use tsykr::lexer::Lexer;
use tsykr::machine::{Action, Machine};
use tsykr::parser::Parser;
use tsykr::token::{Position, Token, TokenKind};
use tsykr::value::{FloatValue, Value};

fn new_float(x: f64) -> Rc<Value> {
    Value::new_float(FloatValue::new(x.to_bits(), x.to_string()))
}

fn number(operand: &Operand) -> f64 {
    match operand {
        Operand::Integer(i) => *i as f64,
        Operand::Float(f) => f64::from_bits(f.bits),
    }
}

fn answer(request: &FloatRequest) -> Rc<Value> {
    match request {
        FloatRequest::Literal(text) => new_float(text.parse().unwrap()),
        FloatRequest::Negate(f) => new_float(-f64::from_bits(f.bits)),
        FloatRequest::Binary(op, left, right) => {
            let (a, b) = (number(left), number(right));
            match op {
                FloatOp::Add => new_float(a + b),
                FloatOp::Subtract => new_float(a - b),
                FloatOp::Multiply => new_float(a * b),
                FloatOp::Divide => new_float(a / b),
                FloatOp::Equal => Value::from_native_bool(a == b),
                FloatOp::NotEqual => Value::from_native_bool(a != b),
                FloatOp::Less => Value::from_native_bool(a < b),
                FloatOp::Greater => Value::from_native_bool(a > b),
                FloatOp::LessOrEqual => Value::from_native_bool(a <= b),
                FloatOp::GreaterOrEqual => Value::from_native_bool(a >= b),
            }
        }
    }
}

/// Runs the machine to the end of its program. What the program prints is
/// added to `output`.
fn drive(machine: &mut Machine, output: &mut String) -> Result<Rc<Value>, EvalError> {
    loop {
        match machine.run(64) {
            Action::Continue => {}
            Action::Float(request) => machine.resume(answer(&request)),
            Action::Print(text, newline) => {
                output.push_str(&text);
                if newline {
                    output.push('\n');
                }
            }
            Action::Done(value) => return Ok(value),
            Action::Failed(error) => return Err(error),
            Action::Stalled => panic!("the machine has nothing to run"),
        }
    }
}

fn eval_in(machine: &mut Machine, statement: Statement, scope: usize) -> Result<Rc<Value>, EvalError> {
    let mut program = Program::new();
    program.push_statement(Box::new(statement));
    machine.start_in(program, scope);
    drive(machine, &mut String::new())
}

fn eval_statement(machine: &mut Machine, statement: Statement) -> Result<Rc<Value>, EvalError> {
    eval_in(machine, statement, 0)
}

fn eval_expression(machine: &mut Machine, expression: Expression) -> Result<Rc<Value>, EvalError> {
    let token = Token::new(TokenKind::SemiColon, Position(0, 0));
    eval_statement(machine, Statement::new_expression(token, Box::new(expression)))
}

fn parse(source: &str) -> Program {
    let mut parser = Parser::new(Lexer::new(source.to_string()));
    parser.parse().unwrap()
}

fn run_source(machine: &mut Machine, source: &str) -> Result<Rc<Value>, EvalError> {
    machine.start(parse(source));
    drive(machine, &mut String::new())
}

fn eval_source(source: &str) -> Result<Rc<Value>, EvalError> {
    run_source(&mut Machine::new(), source)
}

fn token(kind: TokenKind) -> Token {
    Token::new(kind, Position(0, 0))
}

fn integer(i: i64) -> Box<Expression> {
    Box::new(Expression::new_integer(token(TokenKind::Integer(i))))
}

fn name(text: &str) -> Identifier {
    Identifier::new(token(TokenKind::Identifier(text.to_string())))
}

fn var(text: &str) -> Box<Expression> {
    Box::new(Expression::Identifier(name(text)))
}

fn block(statements: Vec<Statement>) -> Block {
    Block::new(
        token(TokenKind::LeftCurly),
        statements.into_iter().map(Box::new).collect(),
    )
}

#[test]
fn test_array_eval() {
    let token = Token::new(TokenKind::LeftBracket, Position(0, 0));
    let arr = Array::new(
        token.clone(),
        vec![Box::new(Expression::new_boolean(Token::new(
            TokenKind::True,
            Position(0, 0),
        )))],
    );

    let mut env = Machine::new();
    let result = eval_expression(&mut env, Expression::Array(arr));

    assert!(result.is_ok());
    assert_eq!(
        result.unwrap(),
        Value::new_array(vec![Value::from_native_bool(true)])
    )
}

#[test]
fn test_bool_eval() {
    let token = Token::new(TokenKind::True, Position(0, 0));
    let boolean = Boolean::new(token);

    let mut env = Machine::new();
    let result = eval_expression(&mut env, Expression::Boolean(boolean));

    assert!(result.is_ok());
    assert_eq!(result.unwrap(), Value::from_native_bool(true));
}

#[test]
fn test_call_eval() {
    let block = Block::new(
        Token::new(TokenKind::LeftCurly, Position(0, 0)),
        vec![Box::new(Statement::new_return(
            Token::new(TokenKind::Return, Position(0, 0)),
            Box::new(Expression::new_integer(Token::new(
                TokenKind::Integer(42),
                Position(0, 0),
            ))),
        ))],
    );
    let params = vec![];
    let function = FunctionExpression::new(
        Token::new(TokenKind::Function, Position(0, 0)),
        params,
        block,
    );

    let call = FunctionCall::new(
        Token::new(TokenKind::LeftParen, Position(0, 0)),
        Box::new(Expression::Function(function)),
        vec![],
    );

    let mut env = Machine::new();
    let result = eval_expression(&mut env, Expression::FunctionCall(call));
    assert!(result.is_ok());
    assert_eq!(result.unwrap(), Value::new_integer(42));
}

#[test]
fn test_float_eval() {
    let token = Token::new(TokenKind::Float("3.22".to_string()), Position(0, 0));
    let float = Float::new(token);

    let mut env = Machine::new();
    let result = eval_expression(&mut env, Expression::Float(float));

    assert!(result.is_ok());
    assert_eq!(result.unwrap(), new_float(3.22));
}

#[test]
fn test_fn_expr_eval() {
    let block = Block::new(Token::new(TokenKind::LeftCurly, Position(0, 0)), vec![]);
    let params = vec![];
    let function = FunctionExpression::new(
        Token::new(TokenKind::Function, Position(0, 0)),
        params,
        block,
    );

    let mut env = Machine::new();
    let result = eval_expression(&mut env, Expression::Function(function));

    assert!(result.is_ok());
    let matched = matches!(&*result.unwrap(), Value::Function(_));
    assert_eq!(matched, true);
}

#[test]
fn test_eval_identifier() {
    let token = Token::new(TokenKind::Identifier("cool".to_string()), Position(0, 0));
    let ident = Identifier::new(token.clone());

    let mut env = ExecutionEnvironment::new_global();
    env.set(0, token.literal(), Value::from_native_bool(true));

    let mut machine = Machine::from_environment(env);
    let result = eval_expression(&mut machine, Expression::Identifier(ident));
    assert!(result.is_ok());
    assert_eq!(result.unwrap(), Value::from_native_bool(true));
}

#[test]
fn test_index_eval() {
    let token = Token::new(TokenKind::LeftBracket, Position(0, 0));
    let arr = Expression::new_array(
        token.clone(),
        vec![Box::new(Expression::new_boolean(Token::new(
            TokenKind::True,
            Position(0, 0),
        )))],
    );

    let idx = Index::new(
        token.clone(),
        Box::new(arr),
        Box::new(Expression::new_integer(Token::new(
            TokenKind::Integer(0),
            Position(0, 0),
        ))),
    );

    let mut env = Machine::new();
    let result = eval_expression(&mut env, Expression::Index(idx));

    assert!(result.is_ok());
    assert_eq!(result.unwrap(), Value::from_native_bool(true));
}

#[test]
fn test_infix_eval() {
    let token = Token::new(TokenKind::Minus, Position(0, 0));
    let left = Box::new(Expression::new_integer(Token::new(
        TokenKind::Integer(42),
        Position(0, 0),
    )));
    let right = Box::new(Expression::new_integer(Token::new(
        TokenKind::Integer(42),
        Position(0, 0),
    )));
    let infixed = Infixed::new(token, left, right);

    let mut env = Machine::new();
    let result = eval_expression(&mut env, Expression::Infixed(infixed));

    assert!(result.is_ok());
    assert_eq!(result.unwrap(), Value::new_integer(0));

    let token = Token::new(TokenKind::Plus, Position(0, 0));
    let left = Box::new(Expression::new_float(Token::new(
        TokenKind::Float("42.2".to_string()),
        Position(0, 0),
    )));
    let right = Box::new(Expression::new_integer(Token::new(
        TokenKind::Integer(42),
        Position(0, 0),
    )));
    let infixed = Infixed::new(token, left, right);

    let result = eval_expression(&mut env, Expression::Infixed(infixed));

    assert!(result.is_ok());
    assert_eq!(result.unwrap(), new_float(84.2));

    let token = Token::new(TokenKind::EqualsEquals, Position(0, 0));
    let left = Box::new(Expression::new_boolean(Token::new(
        TokenKind::True,
        Position(0, 0),
    )));
    let right = Box::new(Expression::new_boolean(Token::new(
        TokenKind::False,
        Position(0, 0),
    )));
    let infixed = Infixed::new(token, left, right);

    let result = eval_expression(&mut env, Expression::Infixed(infixed));

    assert!(result.is_ok());
    assert_eq!(result.unwrap(), Value::from_native_bool(false));
}

#[test]
fn test_integer_eval() {
    let token = Token::new(TokenKind::Integer(42), Position(0, 0));
    let integer = Integer::new(token.clone());

    let mut env = Machine::new();
    let result = eval_expression(&mut env, Expression::Integer(integer));

    assert!(result.is_ok());
    assert_eq!(result.unwrap(), Value::new_integer(42));
}

#[test]
fn test_prefixed_eval() {
    let token = Token::new(TokenKind::Minus, Position(0, 0));
    let right = Box::new(Expression::Integer(Integer::new(Token::new(
        TokenKind::Integer(42),
        Position(0, 0),
    ))));
    let prefixed = Prefixed::new(token, right);

    let mut env = Machine::new();
    let result = eval_expression(&mut env, Expression::Prefixed(prefixed));

    assert!(result.is_ok());
    assert_eq!(result.unwrap(), Value::new_integer(-42));

    let token = Token::new(TokenKind::Bang, Position(0, 0));
    let right = Box::new(Expression::new_boolean(Token::new(
        TokenKind::True,
        Position(0, 0),
    )));
    let prefixed = Prefixed::new(token, right);

    let result = eval_expression(&mut env, Expression::Prefixed(prefixed));

    assert!(result.is_ok());
    assert_eq!(result.unwrap(), Value::from_native_bool(false));
}

#[test]
fn test_string_eval() {
    let token = Token::new(TokenKind::String("who".to_string()), Position(0, 0));
    let string = StringLiteral::new(token);

    let mut env = Machine::new();
    let result = eval_expression(&mut env, Expression::StringLiteral(string));

    assert!(result.is_ok());
    assert_eq!(result.unwrap(), Value::new_string("who".to_string()));
}

#[test]
fn test_assign_eval() {
    let ident = Identifier::new(Token::new(
        TokenKind::Identifier("who_cares".to_string()),
        Position(0, 0),
    ));
    let int = Expression::new_integer(Token::new(TokenKind::Integer(69), Position(0, 0)));

    let stmt = AssignStatement::new(ident, Box::new(int));

    let mut env = ExecutionEnvironment::new_global();
    env.set(0, "who_cares".to_string(), Value::new_integer(1));

    let local = env.new_local(0);
    env.set(local, "who_cares".to_string(), Value::new_integer(2));

    let mut machine = Machine::from_environment(env);
    let result = eval_in(&mut machine, Statement::Assign(stmt), local);

    let global_stored = machine.environment().get(0, "who_cares");
    let local_stored = machine.environment().get(local, "who_cares");

    assert!(result.is_ok());
    assert_eq!(result.unwrap(), Value::new_void());
    assert_eq!(global_stored, Some(Value::new_integer(1)));
    assert_eq!(local_stored, Some(Value::new_integer(69)));
}

#[test]
fn test_block_eval() {
    let block = Block::new(
        Token::new(TokenKind::LeftCurly, Position(0, 0)),
        vec![
            Box::new(Statement::new_let(
                Token::new(TokenKind::Let, Position(0, 0)),
                Identifier::new(Token::new(
                    TokenKind::Identifier("x".to_string()),
                    Position(0, 0),
                )),
                Box::new(Expression::new_integer(Token::new(
                    TokenKind::Integer(5),
                    Position(0, 0),
                ))),
            )),
            Box::new(Statement::new_return(
                Token::new(TokenKind::Return, Position(0, 0)),
                Box::new(Expression::new_identifier(Token::new(
                    TokenKind::Identifier("x".to_string()),
                    Position(0, 0),
                ))),
            )),
        ],
    );

    let mut env = Machine::new();
    let result = eval_statement(&mut env, Statement::Block(block));

    // A block hands the payload of a `return` on as it is, wrapped: only a
    // call takes it out.
    assert!(result.is_ok());
    assert_eq!(
        result.unwrap(),
        Value::new_returned(Value::new_integer(5))
    );

    let block = Block::new(
        Token::new(TokenKind::LeftCurly, Position(0, 0)),
        vec![Box::new(Statement::new_expression(
            Token::new(TokenKind::Integer(5), Position(0, 0)),
            Box::new(Expression::new_integer(Token::new(
                TokenKind::Integer(5),
                Position(0, 0),
            ))),
        ))],
    );

    let result = eval_statement(&mut env, Statement::Block(block));

    // Without a `return`, the result of a block is that of its last
    // statement.
    assert!(result.is_ok());
    assert_eq!(result.unwrap(), Value::new_integer(5));
}

#[test]
fn test_condition_statement_eval() {
    let condition = |value: TokenKind, if_false: Option<Block>| {
        Statement::Condition(ConditionStatement::new(
            token(TokenKind::If),
            Box::new(Expression::new_boolean(token(value))),
            block(vec![Statement::new_return(token(TokenKind::Return), integer(1))]),
            if_false,
        ))
    };
    let mut machine = Machine::new();

    let result = eval_statement(&mut machine, condition(TokenKind::True, None));
    assert_eq!(result.unwrap(), Value::new_returned(Value::new_integer(1)));

    let result = eval_statement(&mut machine, condition(TokenKind::False, None));
    assert_eq!(result.unwrap(), Value::new_void());

    let otherwise = block(vec![Statement::new_expression(token(TokenKind::Integer(2)), integer(2))]);
    let result = eval_statement(&mut machine, condition(TokenKind::False, Some(otherwise)));
    assert_eq!(result.unwrap(), Value::new_void());

    let not_a_boolean = Statement::Condition(ConditionStatement::new(
        Token::new(TokenKind::If, Position(3, 4)),
        integer(7),
        block(vec![]),
        None,
    ));
    assert_eq!(
        eval_statement(&mut machine, not_a_boolean),
        Err(EvalError::NonBooleanCondition("7".to_string(), Position(3, 4)))
    );
}

#[test]
fn test_fn_declaration_eval() {
    let block = Block::new(Token::new(TokenKind::LeftCurly, Position(0, 0)), vec![]);
    let params = vec![];
    let function = FunctionDeclaration::new(
        Token::new(TokenKind::Function, Position(0, 0)),
        Identifier::new(Token::new(
            TokenKind::Identifier("add".to_string()),
            Position(0, 0),
        )),
        params,
        block,
    );
    let declared = function.identifier.to_string();

    let mut env = Machine::new();
    let result = eval_statement(&mut env, Statement::FunctionDeclaration(function));
    assert!(result.is_ok());
    assert_eq!(result.unwrap(), Value::new_void());

    let stored = env.environment().get(0, &declared);
    assert!(stored.is_some());
    assert!(matches!(&*stored.unwrap(), Value::Function(_)))
}

#[test]
fn test_let_eval() {
    let token = Token::new(TokenKind::Let, Position(0, 0));
    let ident = Identifier::new(Token::new(
        TokenKind::Identifier("who_cares".to_string()),
        Position(0, 0),
    ));
    let int = Expression::new_integer(Token::new(TokenKind::Integer(69), Position(0, 0)));

    let stmt = LetStatement::new(token, ident, Box::new(int));

    let mut env = Machine::new();
    let result = eval_statement(&mut env, Statement::LetStatement(stmt));
    let stored = env.environment().get(0, "who_cares");

    assert!(result.is_ok());
    assert_eq!(result.unwrap(), Value::new_void());
    assert_eq!(stored, Some(Value::new_integer(69)))
}

#[test]
fn test_return_eval() {
    let token = Token::new(TokenKind::Return, Position(0, 0));
    let bool = Expression::new_boolean(Token::new(TokenKind::True, Position(0, 0)));

    let stmt = ReturnStatement::new(token.clone(), Box::new(bool));

    let mut env = Machine::new();
    let result = eval_statement(&mut env, Statement::ReturnStatement(stmt));
    assert!(result.is_ok());
    assert_eq!(
        result.unwrap(),
        Value::new_returned(Value::from_native_bool(true))
    );
}

#[test]
fn numeric_promotion_and_division() {
    assert_eq!(eval_source("1 + 2.5"), Ok(new_float(3.5)));
    assert_eq!(eval_source("2.5 + 1"), Ok(new_float(3.5)));
    assert_eq!(eval_source("4 / 2"), Ok(Value::new_integer(2)));
    assert_eq!(
        eval_source("4 / 0"),
        Err(EvalError::DivisionByZero("4".to_string(), "0".to_string(), Position(1, 3)))
    );
    assert_eq!(
        eval_source("4.0 / 0.0"),
        Err(EvalError::DivisionByZero("4".to_string(), "0".to_string(), Position(1, 5)))
    );
    assert_eq!(
        eval_source("4.5 / 0"),
        Err(EvalError::DivisionByZero("4.5".to_string(), "0".to_string(), Position(1, 5)))
    );
    assert_eq!(
        eval_source("1 / (0.0 * -1)"),
        Err(EvalError::DivisionByZero("1".to_string(), "-0".to_string(), Position(1, 3)))
    );
    assert_eq!(eval_source("1.5 < 2"), Ok(Value::from_native_bool(true)));
    assert_eq!(eval_source("2 == 2.0"), Ok(Value::from_native_bool(true)));
    assert_eq!(eval_source("-2.5"), Ok(new_float(-2.5)));
    assert_eq!(eval_source("3.0 * 0.5 - 1"), Ok(new_float(0.5)));
}

#[test]
fn integer_arithmetic() {
    assert_eq!(eval_source("1 + 2 * 3"), Ok(Value::new_integer(7)));
    assert_eq!(eval_source("(1 + 2) * 3"), Ok(Value::new_integer(9)));
    assert_eq!(eval_source("7 / 2"), Ok(Value::new_integer(3)));
    assert_eq!(eval_source("-7 / 2"), Ok(Value::new_integer(-3)));
    assert_eq!(eval_source("7 / -2"), Ok(Value::new_integer(-3)));
    assert_eq!(eval_source("-7 / -2"), Ok(Value::new_integer(3)));
    assert_eq!(eval_source("3 - 5"), Ok(Value::new_integer(-2)));
    assert_eq!(eval_source("2 <= 2"), Ok(Value::from_native_bool(true)));
    assert_eq!(eval_source("2 > 3"), Ok(Value::from_native_bool(false)));
    assert_eq!(eval_source("2 != 3"), Ok(Value::from_native_bool(true)));
    assert_eq!(
        eval_source("9223372036854775807 + 1"),
        Ok(Value::new_integer(i64::MIN))
    );
    assert_eq!(
        eval_source("(-9223372036854775807 - 1) / -1"),
        Ok(Value::new_integer(i64::MIN))
    );
    assert_eq!(
        eval_source("-(-9223372036854775807 - 1)"),
        Ok(Value::new_integer(i64::MIN))
    );
    assert_eq!(
        eval_source("4611686018427387904 * 4"),
        Ok(Value::new_integer(0))
    );
}

#[test]
fn strings_and_booleans() {
    assert_eq!(
        eval_source("\"ab\" + \"cd\""),
        Ok(Value::new_string("abcd".to_string()))
    );
    assert_eq!(eval_source("\"ab\" == \"ab\""), Ok(Value::from_native_bool(true)));
    assert_eq!(eval_source("\"ab\" != \"ab\""), Ok(Value::from_native_bool(false)));
    assert_eq!(eval_source("true != false"), Ok(Value::from_native_bool(true)));
    assert_eq!(eval_source("!true"), Ok(Value::from_native_bool(false)));
    assert_eq!(
        eval_source("\"ab\" - \"cd\""),
        Err(EvalError::InvalidInfixOperation(
            "ab".to_string(),
            "-".to_string(),
            "cd".to_string(),
            Position(1, 6)
        ))
    );
    assert_eq!(
        eval_source("true < false"),
        Err(EvalError::InvalidInfixOperation(
            "true".to_string(),
            "<".to_string(),
            "false".to_string(),
            Position(1, 6)
        ))
    );
    assert_eq!(
        eval_source("1 + true"),
        Err(EvalError::InvalidInfixOperation(
            "1".to_string(),
            "+".to_string(),
            "true".to_string(),
            Position(1, 3)
        ))
    );
    assert_eq!(
        eval_source("1.5 + \"a\""),
        Err(EvalError::InvalidInfixOperation(
            "1.5".to_string(),
            "+".to_string(),
            "a".to_string(),
            Position(1, 5)
        ))
    );
    assert_eq!(
        eval_source("!5"),
        Err(EvalError::InvalidPrefixOperation(
            "!".to_string(),
            "5".to_string(),
            Position(1, 1)
        ))
    );
    assert_eq!(
        eval_source("-true"),
        Err(EvalError::InvalidPrefixOperation(
            "-".to_string(),
            "true".to_string(),
            Position(1, 1)
        ))
    );
}

#[test]
fn shadowing_in_a_block_does_not_leak() {
    let mut machine = Machine::new();
    run_source(&mut machine, "let x = 1; { let x = 2; }").unwrap();
    assert_eq!(machine.environment().get(0, "x"), Some(Value::new_integer(1)));
    assert_eq!(run_source(&mut machine, "x"), Ok(Value::new_integer(1)));
}

#[test]
fn a_block_sees_the_scope_around_it() {
    assert_eq!(
        eval_source("let x = 1; { let y = x + 1; y }"),
        Ok(Value::new_integer(2))
    );
    assert_eq!(
        eval_source("{ let y = 1; } y"),
        Err(EvalError::NotDefined("y".to_string(), Position(1, 16)))
    );
}

/// `let counter = fn() { let n = 0; return fn() { n = n + 1; return n; }; };`
fn counter() -> Statement {
    let plus = Expression::new_infixed(token(TokenKind::Plus), var("n"), integer(1));
    let inner = FunctionExpression::new(
        token(TokenKind::Function),
        vec![],
        block(vec![
            Statement::new_assign(name("n"), Box::new(plus)),
            Statement::new_return(token(TokenKind::Return), var("n")),
        ]),
    );
    let outer = FunctionExpression::new(
        token(TokenKind::Function),
        vec![],
        block(vec![
            Statement::new_let(token(TokenKind::Let), name("n"), integer(0)),
            Statement::new_return(
                token(TokenKind::Return),
                Box::new(Expression::Function(inner)),
            ),
        ]),
    );
    Statement::new_let(
        token(TokenKind::Let),
        name("counter"),
        Box::new(Expression::Function(outer)),
    )
}

#[test]
fn a_closure_shares_the_scope_it_captured() {
    let mut machine = Machine::new();
    eval_statement(&mut machine, counter()).unwrap();
    run_source(&mut machine, "let c = counter();").unwrap();
    assert_eq!(run_source(&mut machine, "c();"), Ok(Value::new_integer(1)));
    assert_eq!(run_source(&mut machine, "c();"), Ok(Value::new_integer(2)));
    run_source(&mut machine, "let d = counter();").unwrap();
    assert_eq!(run_source(&mut machine, "d();"), Ok(Value::new_integer(1)));
    assert_eq!(run_source(&mut machine, "c();"), Ok(Value::new_integer(3)));
}

#[test]
fn assignment_to_an_undeclared_name_fails() {
    let assign = Statement::new_assign(
        Identifier::new(Token::new(
            TokenKind::Identifier("x".to_string()),
            Position(1, 1),
        )),
        integer(5),
    );
    let mut machine = Machine::new();
    assert_eq!(
        eval_statement(&mut machine, assign),
        Err(EvalError::NotDefined("x".to_string(), Position(1, 1)))
    );
    assert_eq!(machine.environment().get(0, "x"), None);
}

#[test]
fn assignment_reaches_the_nearest_scope_that_binds_the_name() {
    let mut machine = Machine::new();
    run_source(&mut machine, "let x = 1; let set = fn(v) { let y = v; };").unwrap();
    let body = block(vec![Statement::new_assign(name("x"), var("v"))]);
    let declare = Statement::new_function(
        token(TokenKind::Function),
        name("put"),
        vec![name("v")],
        body,
    );
    eval_statement(&mut machine, declare).unwrap();
    assert_eq!(run_source(&mut machine, "put(7)"), Ok(Value::new_void()));
    assert_eq!(run_source(&mut machine, "x"), Ok(Value::new_integer(7)));
}

#[test]
fn indexing() {
    assert_eq!(
        eval_source("[1,2][5]"),
        Err(EvalError::IndexOutOfBounds(5, 2, Position(1, 6)))
    );
    assert_eq!(
        eval_source("[1,2][-1]"),
        Err(EvalError::IndexOutOfBounds(-1, 2, Position(1, 6)))
    );
    assert_eq!(eval_source("\"ab\"[0]"), Ok(Value::new_string("a".to_string())));
    assert_eq!(eval_source("\"ab\"[1]"), Ok(Value::new_string("b".to_string())));
    assert_eq!(
        eval_source("\"ab\"[2]"),
        Err(EvalError::IndexOutOfBounds(2, 2, Position(1, 5)))
    );
    assert_eq!(eval_source("[1,2][1]"), Ok(Value::new_integer(2)));
    assert_eq!(eval_source("[[1],[2, 3]][1][0]"), Ok(Value::new_integer(2)));
    assert_eq!(
        eval_source("[1,2][true]"),
        Err(EvalError::InvalidIndexExpression(
            "[1, 2]".to_string(),
            "true".to_string(),
            Position(1, 6)
        ))
    );
    assert_eq!(
        eval_source("5[0]"),
        Err(EvalError::InvalidIndexExpression(
            "5".to_string(),
            "0".to_string(),
            Position(1, 2)
        ))
    );
}

#[test]
fn calls() {
    assert_eq!(
        eval_source("let f = fn(a, b) { return a; }; f(1)"),
        Err(EvalError::WrongNumberOfArguments(2, 1, Position(1, 34)))
    );
    assert_eq!(
        eval_source("let f = fn(a, b) { return a - b; }; f(5, 3)"),
        Ok(Value::new_integer(2))
    );
    assert_eq!(eval_source("fn(a) { a; }(1)"), Ok(Value::new_void()));
    assert_eq!(
        eval_source("5(1)"),
        Err(EvalError::NotAFunction(Position(1, 2)))
    );
    assert_eq!(
        eval_source("5(nothing)"),
        Err(EvalError::NotAFunction(Position(1, 2)))
    );
    assert_eq!(
        eval_source("fn f() { } let g = fn(a) { return a; }; g(f())"),
        Err(EvalError::VoidValueAsArgument(Position(1, 42)))
    );
    assert_eq!(
        eval_source("fn fact(n) { return n * fact(n - 1 + stop(n)); } fn stop(n) { return n == 1; } 1"),
        Ok(Value::new_integer(1))
    );
}

#[test]
fn a_function_sees_itself_and_what_it_captured_not_its_caller() {
    let mut machine = Machine::new();
    let then_return_one = block(vec![Statement::new_return(token(TokenKind::Return), integer(1))]);
    let test = Expression::new_infixed(token(TokenKind::LessThan), var("n"), integer(2));
    let recurse = Expression::new_function_call(
        token(TokenKind::LeftParen),
        var("fact"),
        vec![Box::new(Expression::new_infixed(token(TokenKind::Minus), var("n"), integer(1)))],
    );
    let body = block(vec![
        Statement::new_condition(token(TokenKind::If), Box::new(test), then_return_one, None),
        Statement::new_return(
            token(TokenKind::Return),
            Box::new(Expression::new_infixed(
                token(TokenKind::Asterisk),
                var("n"),
                Box::new(recurse),
            )),
        ),
    ]);
    let declare =
        Statement::new_function(token(TokenKind::Function), name("fact"), vec![name("n")], body);
    eval_statement(&mut machine, declare).unwrap();
    assert_eq!(run_source(&mut machine, "fact(10)"), Ok(Value::new_integer(3628800)));

    run_source(&mut machine, "let a = 1; let get = fn() { return a; };").unwrap();
    assert_eq!(
        run_source(&mut machine, "fn(a) { return get(); }(2)"),
        Ok(Value::new_integer(1))
    );
}

#[test]
fn a_return_ends_the_block_and_the_branch_it_stands_in() {
    let mut machine = Machine::new();
    let early = block(vec![Statement::new_return(token(TokenKind::Return), integer(1))]);
    let body = block(vec![
        Statement::new_condition(
            token(TokenKind::If),
            Box::new(Expression::new_boolean(token(TokenKind::True))),
            early,
            None,
        ),
        Statement::new_let(token(TokenKind::Let), name("reached"), integer(1)),
        Statement::new_return(token(TokenKind::Return), integer(2)),
    ]);
    let declare = Statement::new_function(token(TokenKind::Function), name("f"), vec![], body);
    eval_statement(&mut machine, declare).unwrap();
    assert_eq!(run_source(&mut machine, "f()"), Ok(Value::new_integer(1)));
    assert_eq!(
        run_source(&mut machine, "fn() { return 1; return 2; }()"),
        Ok(Value::new_integer(1))
    );
    assert_eq!(
        run_source(&mut machine, "fn() { { return 3; } return 4; }()"),
        Ok(Value::new_integer(3))
    );
}

#[test]
fn a_branch_has_a_scope_of_its_own() {
    let mut machine = Machine::new();
    run_source(&mut machine, "let x = 1;").unwrap();
    let shadow = block(vec![Statement::new_let(token(TokenKind::Let), name("x"), integer(2))]);
    let condition = Statement::new_condition(
        token(TokenKind::If),
        Box::new(Expression::new_boolean(token(TokenKind::True))),
        shadow,
        None,
    );
    assert_eq!(eval_statement(&mut machine, condition), Ok(Value::new_void()));
    assert_eq!(run_source(&mut machine, "x"), Ok(Value::new_integer(1)));
}

#[test]
fn storing_void_fails() {
    assert_eq!(
        eval_source("fn f() { } let x = f();"),
        Err(EvalError::TriedToStoreVoid(Position(1, 12)))
    );
    let mut machine = Machine::new();
    run_source(&mut machine, "let x = 1; fn f() { }").unwrap();
    let call = Expression::new_function_call(token(TokenKind::LeftParen), var("f"), vec![]);
    let assign = Statement::new_assign(
        Identifier::new(Token::new(
            TokenKind::Identifier("x".to_string()),
            Position(2, 3),
        )),
        Box::new(call),
    );
    assert_eq!(
        eval_statement(&mut machine, assign),
        Err(EvalError::TriedToStoreVoid(Position(2, 3)))
    );
    assert_eq!(run_source(&mut machine, "x"), Ok(Value::new_integer(1)));
}

#[test]
fn names_that_are_not_bound() {
    assert_eq!(
        eval_source("1; nothing"),
        Err(EvalError::NotDefined("nothing".to_string(), Position(1, 4)))
    );
}

#[test]
fn the_native_functions() {
    let mut machine = Machine::new();
    let mut output = String::new();
    machine.start(parse("print(1, \"a\", [true, 2.5]); println(); println(\"b\", fn(x, y) { }, len)"));
    assert_eq!(drive(&mut machine, &mut output), Ok(Value::new_void()));
    assert_eq!(output, "1 a [true, 2.5]\nb fn(x, y) builtin\n");

    assert_eq!(eval_source("len(\"abc\")"), Ok(Value::new_integer(3)));
    assert_eq!(eval_source("len(\"\")"), Ok(Value::new_integer(0)));
    assert_eq!(eval_source("len([1, [2, 3]])"), Ok(Value::new_integer(2)));
    assert_eq!(
        eval_source("len()"),
        Err(EvalError::BuiltinWrongNumberOfArguments(
            "len".to_string(),
            1,
            0,
            Position(1, 4)
        ))
    );
    assert_eq!(
        eval_source("len(1, 2)"),
        Err(EvalError::BuiltinWrongNumberOfArguments(
            "len".to_string(),
            1,
            2,
            Position(1, 4)
        ))
    );
    assert_eq!(
        eval_source("len(5)"),
        Err(EvalError::BuiltinWrongArgumentType(
            "len".to_string(),
            "String or Array".to_string(),
            "5".to_string(),
            Position(1, 4)
        ))
    );
}

#[test]
fn display_text() {
    assert_eq!(Value::new_void().to_string(), "void");
    assert_eq!(Value::new_integer(-3).to_string(), "-3");
    assert_eq!(new_float(2.5).to_string(), "2.5");
    assert_eq!(Value::from_native_bool(true).to_string(), "true");
    assert_eq!(Value::new_string("hi".to_string()).to_string(), "hi");
    assert_eq!(
        Value::new_array(vec![Value::new_integer(1), Value::new_string("a".to_string())])
            .to_string(),
        "[1, a]"
    );
    assert_eq!(Value::new_array(vec![]).to_string(), "[]");
    assert_eq!(Value::new_returned(Value::new_integer(4)).to_string(), "4");
    assert_eq!(
        eval_source("fn(a, b) { }").unwrap().to_string(),
        "fn(a, b)"
    );
    assert_eq!(eval_source("len").unwrap().to_string(), "builtin");
}

#[test]
fn values_and_their_tests() {
    assert!(Value::new_void().is_void());
    assert!(!Value::new_integer(1).is_void());
    assert!(Value::new_returned(Value::new_void()).is_returned());
    assert!(Value::new_string(String::new()).is_string());
    assert!(Value::new_array(vec![]).is_array());
    assert_eq!(
        Value::new_returned(Value::new_integer(1)).unwrap_returned(),
        Value::new_integer(1)
    );
    assert_eq!(Value::new_integer(1).unwrap_returned(), Value::new_void());
    assert_eq!(Value::Integer(3).rc(), Value::new_integer(3));
}

#[test]
fn the_global_scope_outlives_a_failure() {
    let mut machine = Machine::new();
    assert!(run_source(&mut machine, "let x = 1; let y = nothing; let z = 3;").is_err());
    assert_eq!(run_source(&mut machine, "x"), Ok(Value::new_integer(1)));
    assert!(run_source(&mut machine, "z").is_err());
    assert!(machine.is_idle());
}

#[test]
fn the_machine_waits_for_the_answer_to_a_request() {
    let mut machine = Machine::new();
    assert_eq!(machine.step(), Action::Stalled);
    machine.start(parse("1.5 + 2"));
    let mut action = machine.step();
    while action == Action::Continue {
        action = machine.step();
    }
    assert_eq!(action, Action::Float(FloatRequest::Literal("1.5".to_string())));
    assert!(machine.is_waiting());
    assert_eq!(machine.step(), Action::Stalled);
    machine.resume(new_float(1.5));
    let mut action = machine.step();
    while action == Action::Continue {
        action = machine.step();
    }
    assert_eq!(
        action,
        Action::Float(FloatRequest::Binary(
            FloatOp::Add,
            Operand::Float(FloatValue::new(1.5f64.to_bits(), "1.5".to_string())),
            Operand::Integer(2)
        ))
    );
    machine.resume(new_float(3.5));
    assert_eq!(machine.run(10), Action::Done(new_float(3.5)));
    assert_eq!(machine.run(10), Action::Stalled);
}

#[test]
fn the_scopes() {
    let mut env = ExecutionEnvironment::new_global();
    assert_eq!(env.len(), 1);
    assert!(env.get(0, "print").is_some());
    let inner = env.new_local(0);
    let innermost = env.new_local(inner);
    assert!(env.set(0, "a".to_string(), Value::new_integer(1)));
    assert!(env.set(inner, "a".to_string(), Value::new_integer(2)));
    assert!(!env.set(inner, "v".to_string(), Value::new_void()));
    assert_eq!(env.get(inner, "v"), None);
    assert_eq!(env.get(innermost, "a"), Some(Value::new_integer(2)));
    assert_eq!(env.get(0, "a"), Some(Value::new_integer(1)));
    assert!(env.assign(innermost, "a", Value::new_integer(3)));
    assert_eq!(env.get(inner, "a"), Some(Value::new_integer(3)));
    assert_eq!(env.get(0, "a"), Some(Value::new_integer(1)));
    assert!(!env.assign(innermost, "b", Value::new_integer(4)));
    assert_eq!(env.get(innermost, "b"), None);
    assert_eq!(env.get(7, "a"), None);
    assert!(env.set(inner, "a".to_string(), Value::new_integer(5)));
    assert_eq!(env.get(innermost, "a"), Some(Value::new_integer(5)));
}

#[test]
fn scopes_are_released_when_what_they_were_made_for_ends() {
    let mut machine = Machine::new();
    run_source(&mut machine, "fn twice(n) { return n + n; } fn deep(n) { { { return twice(n); } } }")
        .unwrap();
    assert_eq!(machine.environment().len(), 1);
    assert_eq!(run_source(&mut machine, "deep(deep(3))"), Ok(Value::new_integer(12)));
    assert_eq!(machine.environment().len(), 1);
    run_source(&mut machine, "{ let a = 1; { let b = 2; } }").unwrap();
    assert_eq!(machine.environment().len(), 1);
    let condition = Statement::new_condition(
        token(TokenKind::If),
        Box::new(Expression::new_boolean(token(TokenKind::True))),
        block(vec![Statement::new_let(token(TokenKind::Let), name("x"), integer(2))]),
        None,
    );
    eval_statement(&mut machine, condition).unwrap();
    assert_eq!(machine.environment().len(), 1);
}

#[test]
fn a_scope_in_which_a_function_was_made_stays() {
    let mut machine = Machine::new();
    eval_statement(&mut machine, counter()).unwrap();
    assert_eq!(machine.environment().len(), 1);
    run_source(&mut machine, "let c = counter();").unwrap();
    assert_eq!(machine.environment().len(), 2);
    assert_eq!(run_source(&mut machine, "c(); c(); c()"), Ok(Value::new_integer(3)));
    assert_eq!(machine.environment().len(), 2);
    run_source(&mut machine, "let d = counter();").unwrap();
    assert_eq!(machine.environment().len(), 3);
    assert_eq!(run_source(&mut machine, "d() + c()"), Ok(Value::new_integer(5)));
    assert_eq!(machine.environment().len(), 3);
}

#[test]
fn a_failure_releases_the_scopes_of_the_program() {
    let mut machine = Machine::new();
    run_source(&mut machine, "fn f() { { return nothing; } }").unwrap();
    assert!(run_source(&mut machine, "f()").is_err());
    assert_eq!(machine.environment().len(), 1);
    assert_eq!(run_source(&mut machine, "1"), Ok(Value::new_integer(1)));
}

#[test]
fn releasing_and_capturing_scopes() {
    let mut env = ExecutionEnvironment::new_global();
    let a = env.new_local(0);
    let b = env.new_local(a);
    env.release(a);
    assert_eq!(env.len(), 3);
    env.release(b);
    assert_eq!(env.len(), 2);
    env.capture(a);
    env.release(a);
    assert_eq!(env.len(), 2);
    let c = env.new_local(a);
    let d = env.new_local(c);
    assert_eq!((c, d), (2, 3));
    env.trim(3);
    assert_eq!(env.len(), 3);
    env.trim(0);
    assert_eq!(env.len(), 2);
    env.release(0);
    assert_eq!(env.len(), 2);
}

#[test]
fn only_a_float_or_a_boolean_answers_a_request() {
    let mut machine = Machine::new();
    machine.start(parse("-1.5"));
    while machine.step() == Action::Continue {}
    assert!(machine.is_waiting());
    machine.resume(Value::new_integer(1));
    assert!(machine.is_waiting());
    machine.resume(new_float(1.5));
    assert!(!machine.is_waiting());
}

#[test]
fn deep_recursion_runs_on_the_machines_own_stack() {
    // fn sum(n) { if (n < 1) { return 0; } return n + sum(n - 1); }
    let base = block(vec![Statement::new_return(token(TokenKind::Return), integer(0))]);
    let test = Expression::new_infixed(token(TokenKind::LessThan), var("n"), integer(1));
    let recurse = Expression::new_function_call(
        token(TokenKind::LeftParen),
        var("sum"),
        vec![Box::new(Expression::new_infixed(token(TokenKind::Minus), var("n"), integer(1)))],
    );
    let body = block(vec![
        Statement::new_condition(token(TokenKind::If), Box::new(test), base, None),
        Statement::new_return(
            token(TokenKind::Return),
            Box::new(Expression::new_infixed(token(TokenKind::Plus), var("n"), Box::new(recurse))),
        ),
    ]);
    let declare =
        Statement::new_function(token(TokenKind::Function), name("sum"), vec![name("n")], body);
    let mut machine = Machine::new();
    eval_statement(&mut machine, declare).unwrap();
    assert_eq!(
        run_source(&mut machine, "sum(100000)"),
        Ok(Value::new_integer(5000050000))
    );
    assert_eq!(machine.environment().len(), 1);
}

#[test]
fn a_long_program() {
    let mut source = String::new();
    for i in 0..20000 {
        source.push_str(&format!("let v = {} + 2 * 3; // line {}\n", i, i));
    }
    source.push_str("v");
    assert_eq!(eval_source(&source), Ok(Value::new_integer(20005)));
}
