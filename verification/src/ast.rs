//! The syntax tree: statements and expressions, each with the token it came
//! from, and the mathematical view of a tree that the contracts speak of.

use vstd::prelude::*;
use std::rc::Rc;
use crate::shared::share;
use crate::token::{Token, TokenView};

verus! {

/// An expression as specifications see it.
pub enum ExprView {
    Identifier(TokenView),
    Integer(TokenView),
    Float(TokenView),
    Boolean(TokenView),
    StringLiteral(TokenView),
    /// The opening bracket and the elements.
    Array(TokenView, Seq<ExprView>),
    /// The operator and its operand.
    Prefixed(TokenView, Box<ExprView>),
    /// The left operand, the operator and the right operand.
    Infixed(Box<ExprView>, TokenView, Box<ExprView>),
    /// The `fn` token, the parameters and the body.
    Function(TokenView, Seq<TokenView>, BlockView),
    /// The opening parenthesis, the callee and the arguments.
    FunctionCall(TokenView, Box<ExprView>, Seq<ExprView>),
    /// The opening bracket, the collection and the index.
    Index(TokenView, Box<ExprView>, Box<ExprView>),
}

/// A block as specifications see it.
pub struct BlockView {
    pub token: TokenView,
    pub statements: Seq<StmtView>,
}

/// A statement as specifications see it.
pub enum StmtView {
    Block(BlockView),
    /// The first token and the expression.
    Expression(TokenView, ExprView),
    /// The `let` token, the name and the value.
    Let(TokenView, TokenView, ExprView),
    /// The `return` token and the value.
    Return(TokenView, ExprView),
    /// The `fn` token, the name, the parameters and the body.
    Function(TokenView, TokenView, Seq<TokenView>, BlockView),
    /// The `if` token, the condition and the two branches.
    Condition(TokenView, ExprView, BlockView, Option<BlockView>),
    /// The name and the value.
    Assign(TokenView, ExprView),
}

/// Identifier node.
#[derive(Debug, PartialEq, Clone)]
pub struct Identifier {
    pub token: Token,
}

/// Integer literal node.
#[derive(Debug, PartialEq, Clone)]
pub struct Integer {
    pub token: Token,
}

/// Float literal node.
#[derive(Debug, PartialEq, Clone)]
pub struct Float {
    pub token: Token,
}

/// Boolean literal node.
#[derive(Debug, PartialEq, Clone)]
pub struct Boolean {
    pub token: Token,
}

/// String literal node.
#[derive(Debug, PartialEq, Clone)]
pub struct StringLiteral {
    pub token: Token,
}

/// Array literal node.
#[derive(Debug, PartialEq)]
pub struct Array {
    pub token: Token,
    pub elements: Vec<Box<Expression>>,
}

/// Prefix operation node.
#[derive(Debug, PartialEq)]
pub struct Prefixed {
    /// Operator token
    pub op: Token,
    pub right: Box<Expression>,
}

/// Infix operation node.
#[derive(Debug, PartialEq)]
pub struct Infixed {
    pub left: Box<Expression>,
    /// Operator token
    pub op: Token,
    pub right: Box<Expression>,
}

/// Function literal node.
#[derive(Debug, PartialEq)]
pub struct FunctionExpression {
    pub token: Token,
    pub parameters: Vec<Identifier>,
    pub body: Rc<Block>,
}

/// Call node.
#[derive(Debug, PartialEq)]
pub struct FunctionCall {
    pub token: Token,
    pub function: Box<Expression>,
    pub arguments: Vec<Box<Expression>>,
}

/// Index node.
#[derive(Debug, PartialEq)]
pub struct Index {
    pub token: Token,
    pub of: Box<Expression>,
    pub index: Box<Expression>,
}

#[derive(Debug, PartialEq)]
pub enum Expression {
    Boolean(Boolean),
    FunctionCall(FunctionCall),
    Float(Float),
    Function(FunctionExpression),
    Identifier(Identifier),
    Infixed(Infixed),
    Integer(Integer),
    Prefixed(Prefixed),
    StringLiteral(StringLiteral),
    Array(Array),
    Index(Index),
}

/// Block statement node.
#[derive(Debug, PartialEq)]
pub struct Block {
    pub token: Token,
    pub statements: Vec<Box<Statement>>,
}

/// Expression statement node.
#[derive(Debug, PartialEq)]
pub struct ExpressionStatement {
    pub token: Token,
    pub expression: Box<Expression>,
}

/// Let statement node.
#[derive(Debug, PartialEq)]
pub struct LetStatement {
    pub token: Token,
    pub identifier: Identifier,
    pub value: Box<Expression>,
}

/// Return statement node.
#[derive(Debug, PartialEq)]
pub struct ReturnStatement {
    pub token: Token,
    pub value: Box<Expression>,
}

/// Function declaration node.
#[derive(Debug, PartialEq)]
pub struct FunctionDeclaration {
    pub token: Token,
    pub identifier: Identifier,
    pub parameters: Vec<Identifier>,
    pub body: Rc<Block>,
}

/// Condition statement node.
#[derive(Debug, PartialEq)]
pub struct ConditionStatement {
    pub token: Token,
    pub condition: Box<Expression>,
    pub if_true: Rc<Block>,
    pub if_false: Option<Rc<Block>>,
}

/// Assign statement node.
#[derive(Debug, PartialEq)]
pub struct AssignStatement {
    pub identifier: Identifier,
    pub value: Box<Expression>,
}

#[derive(Debug, PartialEq)]
pub enum Statement {
    Block(Block),
    ExpressionStatement(ExpressionStatement),
    LetStatement(LetStatement),
    ReturnStatement(ReturnStatement),
    FunctionDeclaration(FunctionDeclaration),
    Condition(ConditionStatement),
    Assign(AssignStatement),
}

/// A whole program: its statements in order.
#[derive(Debug, PartialEq)]
pub struct Program {
    pub statements: Vec<Box<Statement>>,
}

/// The views of a list of identifiers: their tokens.
pub open spec fn names_view(names: Seq<Identifier>) -> Seq<TokenView> {
    Seq::new(names.len(), |i: int| names[i].token@)
}

/// The views of a list of expressions.
pub open spec fn exprs_view(exprs: Seq<Box<Expression>>) -> Seq<ExprView>
    decreases exprs,
{
    Seq::new(
        exprs.len(),
        |i: int|
            if 0 <= i < exprs.len() {
                exprs[i].model()
            } else {
                arbitrary()
            },
    )
}

/// The views of a list of statements.
pub open spec fn stmts_view(stmts: Seq<Box<Statement>>) -> Seq<StmtView>
    decreases stmts,
{
    Seq::new(
        stmts.len(),
        |i: int|
            if 0 <= i < stmts.len() {
                stmts[i].model()
            } else {
                arbitrary()
            },
    )
}

impl Identifier {
    /// The tree that this node stands for.
    pub open spec fn model(&self) -> ExprView {
        ExprView::Identifier(self.token@)
    }
}

impl Integer {
    /// The tree that this node stands for.
    pub open spec fn model(&self) -> ExprView {
        ExprView::Integer(self.token@)
    }
}

impl Float {
    /// The tree that this node stands for.
    pub open spec fn model(&self) -> ExprView {
        ExprView::Float(self.token@)
    }
}

impl Boolean {
    /// The tree that this node stands for.
    pub open spec fn model(&self) -> ExprView {
        ExprView::Boolean(self.token@)
    }
}

impl StringLiteral {
    /// The tree that this node stands for.
    pub open spec fn model(&self) -> ExprView {
        ExprView::StringLiteral(self.token@)
    }
}

impl Array {
    /// The tree that this node stands for.
    pub open spec fn model(&self) -> ExprView
        decreases self,
    {
        ExprView::Array(self.token@, exprs_view(self.elements@))
    }
}

impl Prefixed {
    /// The tree that this node stands for.
    pub open spec fn model(&self) -> ExprView
        decreases self,
    {
        ExprView::Prefixed(self.op@, Box::new(self.right.model()))
    }
}

impl Infixed {
    /// The tree that this node stands for.
    pub open spec fn model(&self) -> ExprView
        decreases self,
    {
        ExprView::Infixed(Box::new(self.left.model()), self.op@, Box::new(self.right.model()))
    }
}

impl FunctionExpression {
    /// The tree that this node stands for.
    pub open spec fn model(&self) -> ExprView
        decreases self,
    {
        ExprView::Function(self.token@, names_view(self.parameters@), self.body.model())
    }
}

impl FunctionCall {
    /// The tree that this node stands for.
    pub open spec fn model(&self) -> ExprView
        decreases self,
    {
        ExprView::FunctionCall(
            self.token@,
            Box::new(self.function.model()),
            exprs_view(self.arguments@),
        )
    }
}

impl Index {
    /// The tree that this node stands for.
    pub open spec fn model(&self) -> ExprView
        decreases self,
    {
        ExprView::Index(self.token@, Box::new(self.of.model()), Box::new(self.index.model()))
    }
}

impl Expression {
    /// The tree that this expression stands for.
    pub open spec fn model(&self) -> ExprView
        decreases self,
    {
        match self {
            Expression::Boolean(n) => n.model(),
            Expression::FunctionCall(n) => n.model(),
            Expression::Float(n) => n.model(),
            Expression::Function(n) => n.model(),
            Expression::Identifier(n) => n.model(),
            Expression::Infixed(n) => n.model(),
            Expression::Integer(n) => n.model(),
            Expression::Prefixed(n) => n.model(),
            Expression::StringLiteral(n) => n.model(),
            Expression::Array(n) => n.model(),
            Expression::Index(n) => n.model(),
        }
    }
}

impl Block {
    /// The tree that this block stands for.
    pub open spec fn model(&self) -> BlockView
        decreases self,
    {
        BlockView { token: self.token@, statements: stmts_view(self.statements@) }
    }
}

impl ExpressionStatement {
    /// The tree that this node stands for.
    pub open spec fn model(&self) -> StmtView
        decreases self,
    {
        StmtView::Expression(self.token@, self.expression.model())
    }
}

impl LetStatement {
    /// The tree that this node stands for.
    pub open spec fn model(&self) -> StmtView
        decreases self,
    {
        StmtView::Let(self.token@, self.identifier.token@, self.value.model())
    }
}

impl ReturnStatement {
    /// The tree that this node stands for.
    pub open spec fn model(&self) -> StmtView
        decreases self,
    {
        StmtView::Return(self.token@, self.value.model())
    }
}

impl FunctionDeclaration {
    /// The tree that this node stands for.
    pub open spec fn model(&self) -> StmtView
        decreases self,
    {
        StmtView::Function(
            self.token@,
            self.identifier.token@,
            names_view(self.parameters@),
            self.body.model(),
        )
    }
}

impl ConditionStatement {
    /// The tree that this node stands for.
    pub open spec fn model(&self) -> StmtView
        decreases self,
    {
        StmtView::Condition(
            self.token@,
            self.condition.model(),
            self.if_true.model(),
            match self.if_false {
                Some(b) => Some(b.model()),
                None => None,
            },
        )
    }
}

impl AssignStatement {
    /// The tree that this node stands for.
    pub open spec fn model(&self) -> StmtView
        decreases self,
    {
        StmtView::Assign(self.identifier.token@, self.value.model())
    }
}

impl Statement {
    /// The tree that this statement stands for.
    pub open spec fn model(&self) -> StmtView
        decreases self,
    {
        match self {
            Statement::Block(n) => StmtView::Block(n.model()),
            Statement::ExpressionStatement(n) => n.model(),
            Statement::LetStatement(n) => n.model(),
            Statement::ReturnStatement(n) => n.model(),
            Statement::FunctionDeclaration(n) => n.model(),
            Statement::Condition(n) => n.model(),
            Statement::Assign(n) => n.model(),
        }
    }
}

impl View for Expression {
    type V = ExprView;

    open spec fn view(&self) -> ExprView {
        self.model()
    }
}

impl View for Block {
    type V = BlockView;

    open spec fn view(&self) -> BlockView {
        self.model()
    }
}

impl View for Statement {
    type V = StmtView;

    open spec fn view(&self) -> StmtView {
        self.model()
    }
}

impl View for Program {
    type V = Seq<StmtView>;

    open spec fn view(&self) -> Seq<StmtView> {
        stmts_view(self.statements@)
    }
}

/// The token that a node of the tree came from: for an operation its
/// operator, for a call its opening parenthesis, for other nodes the first
/// token.
pub open spec fn expr_token(e: ExprView) -> TokenView {
    match e {
        ExprView::Identifier(t) => t,
        ExprView::Integer(t) => t,
        ExprView::Float(t) => t,
        ExprView::Boolean(t) => t,
        ExprView::StringLiteral(t) => t,
        ExprView::Array(t, _) => t,
        ExprView::Prefixed(t, _) => t,
        ExprView::Infixed(_, t, _) => t,
        ExprView::Function(t, _, _) => t,
        ExprView::FunctionCall(t, _, _) => t,
        ExprView::Index(t, _, _) => t,
    }
}

/// The token that a statement came from: its first token.
pub open spec fn stmt_token(s: StmtView) -> TokenView {
    match s {
        StmtView::Block(b) => b.token,
        StmtView::Expression(t, _) => t,
        StmtView::Let(t, _, _) => t,
        StmtView::Return(t, _) => t,
        StmtView::Function(t, _, _, _) => t,
        StmtView::Condition(t, _, _, _) => t,
        StmtView::Assign(t, _) => t,
    }
}

/// Every token in the list is an identifier.
pub open spec fn names_ok(names: Seq<TokenView>) -> bool {
    forall|i: int| 0 <= i < names.len() ==> (#[trigger] names[i]).kind is Identifier
}

/// Every node of the expression holds a token of its own kind: a literal
/// the token of that literal, a prefix operation `!` or `-`, a function
/// `fn`, a call `(`, an array or an index `[`.
pub open spec fn expr_ok(e: ExprView) -> bool
    decreases e,
{
    match e {
        ExprView::Identifier(t) => t.kind is Identifier,
        ExprView::Integer(t) => t.kind is Integer,
        ExprView::Float(t) => t.kind is Float,
        ExprView::Boolean(t) => t.kind is True || t.kind is False,
        ExprView::StringLiteral(t) => t.kind is String,
        ExprView::Array(t, elements) => t.kind is LeftBracket && exprs_ok(elements),
        ExprView::Prefixed(t, right) => (t.kind is Bang || t.kind is Minus) && expr_ok(*right),
        ExprView::Infixed(left, _, right) => expr_ok(*left) && expr_ok(*right),
        ExprView::Function(t, parameters, body) => t.kind is Function && names_ok(parameters)
            && block_ok(body),
        ExprView::FunctionCall(t, function, arguments) => t.kind is LeftParen && expr_ok(
            *function,
        ) && exprs_ok(arguments),
        ExprView::Index(t, of, index) => t.kind is LeftBracket && expr_ok(*of) && expr_ok(
            *index,
        ),
    }
}

/// Every expression in the list is well formed.
pub open spec fn exprs_ok(es: Seq<ExprView>) -> bool
    decreases es,
{
    forall|i: int| 0 <= i < es.len() ==> expr_ok(#[trigger] es[i])
}

/// The block starts with `{` and every statement in it is well formed.
pub open spec fn block_ok(b: BlockView) -> bool
    decreases b,
{
    b.token.kind is LeftCurly && stmts_ok(b.statements)
}

/// Every statement in the list is well formed.
pub open spec fn stmts_ok(ss: Seq<StmtView>) -> bool
    decreases ss,
{
    forall|i: int| 0 <= i < ss.len() ==> stmt_ok(#[trigger] ss[i])
}

/// Every node of the statement holds a token of its own kind.
pub open spec fn stmt_ok(s: StmtView) -> bool
    decreases s,
{
    match s {
        StmtView::Block(b) => block_ok(b),
        StmtView::Expression(_, e) => expr_ok(e),
        StmtView::Let(t, name, value) => t.kind is Let && name.kind is Identifier && expr_ok(
            value,
        ),
        StmtView::Return(t, value) => t.kind is Return && expr_ok(value),
        StmtView::Function(t, name, parameters, body) => t.kind is Function
            && name.kind is Identifier && names_ok(parameters) && block_ok(body),
        StmtView::Condition(t, condition, if_true, if_false) => t.kind is If && expr_ok(
            condition,
        ) && block_ok(if_true) && match if_false {
            Some(b) => block_ok(b),
            None => true,
        },
        StmtView::Assign(name, value) => name.kind is Identifier && expr_ok(value),
    }
}

impl Identifier {
    pub fn new(token: Token) -> (r: Self)
        requires
            token@.kind is Identifier,
        ensures
            r.token == token,
    {
        Identifier { token }
    }

    /// A copy of this node.
    pub fn dup(&self) -> (r: Self)
        ensures
            r.token@ == self.token@,
    {
        Identifier { token: self.token.dup() }
    }
}

impl Integer {
    pub fn new(token: Token) -> (r: Self)
        requires
            token@.kind is Integer,
        ensures
            r.token == token,
    {
        Integer { token }
    }
}

impl Float {
    pub fn new(token: Token) -> (r: Self)
        requires
            token@.kind is Float,
        ensures
            r.token == token,
    {
        Float { token }
    }
}

impl Boolean {
    pub fn new(token: Token) -> (r: Self)
        requires
            token@.kind is True || token@.kind is False,
        ensures
            r.token == token,
    {
        Boolean { token }
    }
}

impl StringLiteral {
    pub fn new(token: Token) -> (r: Self)
        requires
            token@.kind is String,
        ensures
            r.token == token,
    {
        StringLiteral { token }
    }
}

impl Array {
    pub fn new(token: Token, elements: Vec<Box<Expression>>) -> (r: Self)
        requires
            token@.kind is LeftBracket,
        ensures
            r.token == token,
            r.elements == elements,
    {
        Array { token, elements }
    }
}

impl Prefixed {
    pub fn new(op: Token, right: Box<Expression>) -> (r: Self)
        requires
            op@.kind is Bang || op@.kind is Minus,
        ensures
            r.op == op,
            r.right == right,
    {
        Prefixed { op, right }
    }
}

impl Infixed {
    pub fn new(op: Token, left: Box<Expression>, right: Box<Expression>) -> (r: Self)
        ensures
            r.op == op,
            r.left == left,
            r.right == right,
    {
        Infixed { left, op, right }
    }
}

impl FunctionExpression {
    pub fn new(token: Token, parameters: Vec<Identifier>, body: Block) -> (r: Self)
        requires
            token@.kind is Function,
        ensures
            r.token == token,
            r.parameters == parameters,
            *r.body == body,
    {
        FunctionExpression { token, parameters, body: Rc::new(body) }
    }
}

impl FunctionCall {
    pub fn new(token: Token, function: Box<Expression>, arguments: Vec<Box<Expression>>) -> (r:
        Self)
        requires
            token@.kind is LeftParen,
        ensures
            r.token == token,
            r.function == function,
            r.arguments == arguments,
    {
        FunctionCall { token, function, arguments }
    }
}

impl Index {
    pub fn new(token: Token, of: Box<Expression>, index: Box<Expression>) -> (r: Self)
        requires
            token@.kind is LeftBracket,
        ensures
            r.token == token,
            r.of == of,
            r.index == index,
    {
        Index { token, of, index }
    }
}

impl Block {
    pub fn new(token: Token, statements: Vec<Box<Statement>>) -> (r: Self)
        requires
            token@.kind is LeftCurly,
        ensures
            r.token == token,
            r.statements == statements,
    {
        Block { token, statements }
    }
}

impl ExpressionStatement {
    pub fn new(token: Token, expression: Box<Expression>) -> (r: Self)
        ensures
            r.token == token,
            r.expression == expression,
    {
        ExpressionStatement { token, expression }
    }
}

impl LetStatement {
    pub fn new(token: Token, identifier: Identifier, value: Box<Expression>) -> (r: Self)
        requires
            token@.kind is Let,
        ensures
            r.token == token,
            r.identifier == identifier,
            r.value == value,
    {
        LetStatement { token, identifier, value }
    }
}

impl ReturnStatement {
    pub fn new(token: Token, value: Box<Expression>) -> (r: Self)
        requires
            token@.kind is Return,
        ensures
            r.token == token,
            r.value == value,
    {
        ReturnStatement { token, value }
    }
}

impl FunctionDeclaration {
    pub fn new(token: Token, identifier: Identifier, parameters: Vec<Identifier>, body: Block) -> (r:
        Self)
        requires
            token@.kind is Function,
        ensures
            r.token == token,
            r.identifier == identifier,
            r.parameters == parameters,
            *r.body == body,
    {
        FunctionDeclaration { token, identifier, parameters, body: Rc::new(body) }
    }
}

impl ConditionStatement {
    pub fn new(token: Token, condition: Box<Expression>, if_true: Block, if_false: Option<Block>) -> (r:
        Self)
        requires
            token@.kind is If,
        ensures
            r.token == token,
            r.condition == condition,
            *r.if_true == if_true,
            match (r.if_false, if_false) {
                (Some(a), Some(b)) => *a == b,
                (None, None) => true,
                _ => false,
            },
    {
        ConditionStatement {
            token,
            condition,
            if_true: Rc::new(if_true),
            if_false: match if_false {
                Some(b) => Some(Rc::new(b)),
                None => None,
            },
        }
    }
}

impl AssignStatement {
    pub fn new(identifier: Identifier, value: Box<Expression>) -> (r: Self)
        ensures
            r.identifier == identifier,
            r.value == value,
    {
        AssignStatement { identifier, value }
    }
}

impl Statement {
    pub fn new_block(token: Token, statements: Vec<Box<Statement>>) -> (r: Self)
        requires
            token@.kind is LeftCurly,
        ensures
            r == Statement::Block(Block { token, statements }),
    {
        Statement::Block(Block::new(token, statements))
    }

    pub fn new_expression(token: Token, expr: Box<Expression>) -> (r: Self)
        ensures
            r == Statement::ExpressionStatement(ExpressionStatement { token, expression: expr }),
    {
        Statement::ExpressionStatement(ExpressionStatement::new(token, expr))
    }

    pub fn new_let(token: Token, name: Identifier, value: Box<Expression>) -> (r: Self)
        requires
            token@.kind is Let,
        ensures
            r == Statement::LetStatement(LetStatement { token, identifier: name, value }),
    {
        Statement::LetStatement(LetStatement::new(token, name, value))
    }

    pub fn new_return(token: Token, value: Box<Expression>) -> (r: Self)
        requires
            token@.kind is Return,
        ensures
            r == Statement::ReturnStatement(ReturnStatement { token, value }),
    {
        Statement::ReturnStatement(ReturnStatement::new(token, value))
    }

    pub fn new_condition(
        token: Token,
        condition: Box<Expression>,
        consequence: Block,
        alternative: Option<Block>,
    ) -> (r: Self)
        requires
            token@.kind is If,
        ensures
            r@ == StmtView::Condition(
                token@,
                condition@,
                consequence@,
                match alternative {
                    Some(b) => Some(b@),
                    None => None,
                },
            ),
    {
        Statement::Condition(ConditionStatement::new(token, condition, consequence, alternative))
    }

    pub fn new_function(token: Token, name: Identifier, params: Vec<Identifier>, body: Block) -> (r:
        Self)
        requires
            token@.kind is Function,
        ensures
            r@ == StmtView::Function(token@, name.token@, names_view(params@), body@),
    {
        Statement::FunctionDeclaration(FunctionDeclaration::new(token, name, params, body))
    }

    pub fn new_assign(name: Identifier, value: Box<Expression>) -> (r: Self)
        ensures
            r == Statement::Assign(AssignStatement { identifier: name, value }),
    {
        Statement::Assign(AssignStatement::new(name, value))
    }
}

impl Expression {
    pub fn new_boolean(token: Token) -> (r: Self)
        requires
            token@.kind is True || token@.kind is False,
        ensures
            r == Expression::Boolean(Boolean { token }),
    {
        Expression::Boolean(Boolean::new(token))
    }

    pub fn new_function_call(token: Token, func: Box<Expression>, args: Vec<Box<Expression>>) -> (r:
        Self)
        requires
            token@.kind is LeftParen,
        ensures
            r == Expression::FunctionCall(
                FunctionCall { token, function: func, arguments: args },
            ),
    {
        Expression::FunctionCall(FunctionCall::new(token, func, args))
    }

    pub fn new_float(token: Token) -> (r: Self)
        requires
            token@.kind is Float,
        ensures
            r == Expression::Float(Float { token }),
    {
        Expression::Float(Float::new(token))
    }

    pub fn new_integer(token: Token) -> (r: Self)
        requires
            token@.kind is Integer,
        ensures
            r == Expression::Integer(Integer { token }),
    {
        Expression::Integer(Integer::new(token))
    }

    pub fn new_function(token: Token, params: Vec<Identifier>, body: Block) -> (r: Self)
        requires
            token@.kind is Function,
        ensures
            r@ == ExprView::Function(token@, names_view(params@), body@),
    {
        Expression::Function(FunctionExpression::new(token, params, body))
    }

    pub fn new_identifier(token: Token) -> (r: Self)
        requires
            token@.kind is Identifier,
        ensures
            r == Expression::Identifier(Identifier { token }),
    {
        Expression::Identifier(Identifier::new(token))
    }

    pub fn new_prefixed(op_token: Token, right: Box<Expression>) -> (r: Self)
        requires
            op_token@.kind is Bang || op_token@.kind is Minus,
        ensures
            r == Expression::Prefixed(Prefixed { op: op_token, right }),
    {
        Expression::Prefixed(Prefixed::new(op_token, right))
    }

    pub fn new_infixed(op_token: Token, left: Box<Expression>, right: Box<Expression>) -> (r: Self)
        ensures
            r == Expression::Infixed(Infixed { left, op: op_token, right }),
    {
        Expression::Infixed(Infixed::new(op_token, left, right))
    }

    pub fn new_string(token: Token) -> (r: Self)
        requires
            token@.kind is String,
        ensures
            r == Expression::StringLiteral(StringLiteral { token }),
    {
        Expression::StringLiteral(StringLiteral::new(token))
    }

    pub fn new_array(token: Token, elements: Vec<Box<Expression>>) -> (r: Self)
        requires
            token@.kind is LeftBracket,
        ensures
            r == Expression::Array(Array { token, elements }),
    {
        Expression::Array(Array::new(token, elements))
    }

    pub fn new_index(token: Token, of: Box<Expression>, index: Box<Expression>) -> (r: Self)
        requires
            token@.kind is LeftBracket,
        ensures
            r == Expression::Index(Index { token, of, index }),
    {
        Expression::Index(Index::new(token, of, index))
    }
}

impl Program {
    /// A program without statements.
    pub fn new() -> (r: Self)
        ensures
            r.statements@.len() == 0,
            r@ == Seq::<StmtView>::empty(),
    {
        let r = Program { statements: Vec::new() };
        assert(r@ =~= Seq::<StmtView>::empty());
        r
    }

    /// Adds `statement` at the end.
    pub fn push_statement(&mut self, statement: Box<Statement>)
        ensures
            final(self).statements@ == old(self).statements@.push(statement),
            final(self)@ == old(self)@.push(statement@),
    {
        self.statements.push(statement);
        assert(self@ =~= old(self)@.push(statement@));
    }
}

/// Copies a list of identifiers.
pub fn dup_names(names: &Vec<Identifier>) -> (r: Vec<Identifier>)
    ensures
        names_view(r@) == names_view(names@),
{
    let mut out: Vec<Identifier> = Vec::new();
    let mut i: usize = 0;
    while i < names.len()
        invariant
            i <= names.len(),
            out.len() == i,
            forall|j: int| 0 <= j < i ==> out@[j].token@ == names@[j].token@,
        decreases names.len() - i,
    {
        out.push(names[i].dup());
        i += 1;
    }
    assert(names_view(out@) =~= names_view(names@));
    out
}

/// Copies a list of expressions.
pub fn dup_exprs(exprs: &Vec<Box<Expression>>) -> (r: Vec<Box<Expression>>)
    ensures
        exprs_view(r@) == exprs_view(exprs@),
    decreases exprs,
{
    let mut out: Vec<Box<Expression>> = Vec::new();
    let mut i: usize = 0;
    while i < exprs.len()
        invariant
            i <= exprs.len(),
            out.len() == i,
            forall|j: int| 0 <= j < i ==> out@[j]@ == exprs@[j]@,
        decreases exprs.len() - i,
    {
        out.push(Box::new(exprs[i].dup()));
        i += 1;
    }
    assert(exprs_view(out@) =~= exprs_view(exprs@));
    out
}

/// Copies a list of statements.
pub fn dup_stmts(stmts: &Vec<Box<Statement>>) -> (r: Vec<Box<Statement>>)
    ensures
        stmts_view(r@) == stmts_view(stmts@),
    decreases stmts,
{
    let mut out: Vec<Box<Statement>> = Vec::new();
    let mut i: usize = 0;
    while i < stmts.len()
        invariant
            i <= stmts.len(),
            out.len() == i,
            forall|j: int| 0 <= j < i ==> out@[j]@ == stmts@[j]@,
        decreases stmts.len() - i,
    {
        out.push(Box::new(stmts[i].dup()));
        i += 1;
    }
    assert(stmts_view(out@) =~= stmts_view(stmts@));
    out
}

impl Expression {
    /// A copy of this expression.
    pub fn dup(&self) -> (r: Self)
        ensures
            r@ == self@,
        decreases self,
    {
        match self {
            Expression::Boolean(n) => Expression::Boolean(Boolean { token: n.token.dup() }),
            Expression::FunctionCall(n) => Expression::FunctionCall(
                FunctionCall {
                    token: n.token.dup(),
                    function: Box::new(n.function.dup()),
                    arguments: dup_exprs(&n.arguments),
                },
            ),
            Expression::Float(n) => Expression::Float(Float { token: n.token.dup() }),
            Expression::Function(n) => Expression::Function(
                FunctionExpression {
                    token: n.token.dup(),
                    parameters: dup_names(&n.parameters),
                    body: share(&n.body),
                },
            ),
            Expression::Identifier(n) => Expression::Identifier(n.dup()),
            Expression::Infixed(n) => Expression::Infixed(
                Infixed {
                    left: Box::new(n.left.dup()),
                    op: n.op.dup(),
                    right: Box::new(n.right.dup()),
                },
            ),
            Expression::Integer(n) => Expression::Integer(Integer { token: n.token.dup() }),
            Expression::Prefixed(n) => Expression::Prefixed(
                Prefixed { op: n.op.dup(), right: Box::new(n.right.dup()) },
            ),
            Expression::StringLiteral(n) => Expression::StringLiteral(
                StringLiteral { token: n.token.dup() },
            ),
            Expression::Array(n) => Expression::Array(
                Array { token: n.token.dup(), elements: dup_exprs(&n.elements) },
            ),
            Expression::Index(n) => Expression::Index(
                Index {
                    token: n.token.dup(),
                    of: Box::new(n.of.dup()),
                    index: Box::new(n.index.dup()),
                },
            ),
        }
    }
}

impl Block {
    /// A copy of this block.
    pub fn dup(&self) -> (r: Self)
        ensures
            r@ == self@,
        decreases self,
    {
        Block { token: self.token.dup(), statements: dup_stmts(&self.statements) }
    }
}

impl Statement {
    /// A copy of this statement.
    pub fn dup(&self) -> (r: Self)
        ensures
            r@ == self@,
        decreases self,
    {
        match self {
            Statement::Block(n) => Statement::Block(n.dup()),
            Statement::ExpressionStatement(n) => Statement::ExpressionStatement(
                ExpressionStatement {
                    token: n.token.dup(),
                    expression: Box::new(n.expression.dup()),
                },
            ),
            Statement::LetStatement(n) => Statement::LetStatement(
                LetStatement {
                    token: n.token.dup(),
                    identifier: n.identifier.dup(),
                    value: Box::new(n.value.dup()),
                },
            ),
            Statement::ReturnStatement(n) => Statement::ReturnStatement(
                ReturnStatement { token: n.token.dup(), value: Box::new(n.value.dup()) },
            ),
            Statement::FunctionDeclaration(n) => Statement::FunctionDeclaration(
                FunctionDeclaration {
                    token: n.token.dup(),
                    identifier: n.identifier.dup(),
                    parameters: dup_names(&n.parameters),
                    body: share(&n.body),
                },
            ),
            Statement::Condition(n) => Statement::Condition(
                ConditionStatement {
                    token: n.token.dup(),
                    condition: Box::new(n.condition.dup()),
                    if_true: share(&n.if_true),
                    if_false: match &n.if_false {
                        Some(b) => Some(share(b)),
                        None => None,
                    },
                },
            ),
            Statement::Assign(n) => Statement::Assign(
                AssignStatement { identifier: n.identifier.dup(), value: Box::new(n.value.dup()) },
            ),
        }
    }
}

} // verus!
