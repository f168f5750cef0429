//! The canonical text of a syntax tree, and the text of the token that a
//! node came from.

use vstd::prelude::*;
use vstd::string::StringExecFns;
use crate::ast::{
    expr_token, exprs_view, names_view, stmt_token, stmts_view, Array, AssignStatement, Block,
    BlockView, Boolean, ConditionStatement, ExprView, Expression, ExpressionStatement, Float,
    FunctionCall, FunctionDeclaration, FunctionExpression, Identifier, Index, Infixed, Integer,
    LetStatement, Prefixed, Program, ReturnStatement, Statement, StmtView, StringLiteral,
};
use crate::token::TokenView;

verus! {

/// The names, separated by a comma and a space.
pub open spec fn render_names(names: Seq<TokenView>) -> Seq<char>
    decreases names.len(),
{
    if names.len() == 0 {
        Seq::empty()
    } else if names.len() == 1 {
        names[0].text()
    } else {
        render_names(names.drop_last()) + ", "@ + names.last().text()
    }
}

/// The expressions, separated by a comma and a space.
pub open spec fn render_exprs(es: Seq<ExprView>) -> Seq<char>
    decreases es,
{
    if es.len() == 0 {
        Seq::empty()
    } else if es.len() == 1 {
        render_expr(es[0])
    } else {
        render_exprs(es.drop_last()) + ", "@ + render_expr(es.last())
    }
}

/// The canonical text of an expression: a literal or a name as it is, a
/// prefix operation as `(op operand)`, an infix operation as
/// `(left op right)`, both without spaces.
pub open spec fn render_expr(e: ExprView) -> Seq<char>
    decreases e,
{
    match e {
        ExprView::Identifier(t) => t.text(),
        ExprView::Integer(t) => t.text(),
        ExprView::Float(t) => t.text(),
        ExprView::Boolean(t) => t.text(),
        ExprView::StringLiteral(t) => t.text(),
        ExprView::Array(t, elements) => t.text() + render_exprs(elements) + "]"@,
        ExprView::Prefixed(op, right) => "("@ + op.text() + render_expr(*right) + ")"@,
        ExprView::Infixed(left, op, right) => "("@ + render_expr(*left) + op.text()
            + render_expr(*right) + ")"@,
        ExprView::Function(t, parameters, body) => t.text() + " ("@ + render_names(parameters)
            + ") "@ + render_block(body),
        ExprView::FunctionCall(_, function, arguments) => render_expr(*function) + "("@
            + render_exprs(arguments) + ")"@,
        ExprView::Index(_, of, index) => render_expr(*of) + "["@ + render_expr(*index) + "]"@,
    }
}

/// One line for each statement: two spaces, the statement, a line break.
pub open spec fn render_lines(ss: Seq<StmtView>) -> Seq<char>
    decreases ss,
{
    if ss.len() == 0 {
        Seq::empty()
    } else {
        render_lines(ss.drop_last()) + "  "@ + render_stmt(ss.last()) + "\n"@
    }
}

/// The canonical text of a block: braces around one indented line for each
/// statement.
pub open spec fn render_block(b: BlockView) -> Seq<char>
    decreases b,
{
    "{\n"@ + render_lines(b.statements) + "}"@
}

/// The canonical text of a statement.
pub open spec fn render_stmt(s: StmtView) -> Seq<char>
    decreases s,
{
    match s {
        StmtView::Block(b) => render_block(b),
        StmtView::Expression(_, e) => render_expr(e),
        StmtView::Let(t, name, value) => t.text() + " "@ + name.text() + " = "@
            + render_expr(value),
        StmtView::Return(t, value) => t.text() + " "@ + render_expr(value),
        StmtView::Function(t, name, parameters, body) => t.text() + " "@ + name.text()
            + "("@ + render_names(parameters) + ") "@ + render_block(body),
        StmtView::Condition(t, condition, if_true, if_false) => {
            let head = t.text() + " ("@ + render_expr(condition) + ") "@ + render_block(
                if_true,
            );
            match if_false {
                Some(b) => head + " else "@ + render_block(b),
                None => head,
            }
        },
        StmtView::Assign(name, value) => name.text() + " = "@ + render_expr(value),
    }
}

/// The canonical text of a program: its statements, separated by a line
/// break.
pub open spec fn render_program(ss: Seq<StmtView>) -> Seq<char>
    decreases ss,
{
    if ss.len() == 0 {
        Seq::empty()
    } else if ss.len() == 1 {
        render_stmt(ss[0])
    } else {
        render_program(ss.drop_last()) + "\n"@ + render_stmt(ss.last())
    }
}

/// What every node of a syntax tree offers.
pub trait Node {
    /// The text of the token that the node came from.
    spec fn token_text(&self) -> Seq<char>;

    /// The canonical text of the node.
    spec fn text(&self) -> Seq<char>;

    /// The text of the token that the node came from.
    fn token_literal(&self) -> (r: String)
        ensures
            r@ == self.token_text(),
    ;

    /// The canonical text of the node.
    fn to_string(&self) -> (r: String)
        ensures
            r@ == self.text(),
    ;
}

fn names_text(names: &Vec<Identifier>) -> (r: String)
    ensures
        r@ == render_names(names_view(names@)),
{
    let ghost views = names_view(names@);
    let mut out = String::new();
    let mut i: usize = 0;
    while i < names.len()
        invariant
            i <= names.len(),
            views == names_view(names@),
            out@ == render_names(views.take(i as int)),
        decreases names.len() - i,
    {
        if i > 0 {
            out.append(", ");
        }
        let t = names[i].token.literal();
        out.append(t.as_str());
        proof {
            assert(views.take(i + 1).drop_last() =~= views.take(i as int));
            assert(views.take(i + 1).last() == names@[i as int].token@);
            if i == 0 {
                assert(Seq::<char>::empty() + t@ =~= t@);
            }
        }
        i += 1;
    }
    assert(views.take(names.len() as int) =~= views);
    out
}

fn exprs_text(exprs: &Vec<Box<Expression>>) -> (r: String)
    ensures
        r@ == render_exprs(exprs_view(exprs@)),
    decreases exprs,
{
    let ghost views = exprs_view(exprs@);
    let mut out = String::new();
    let mut i: usize = 0;
    while i < exprs.len()
        invariant
            i <= exprs.len(),
            views == exprs_view(exprs@),
            out@ == render_exprs(views.take(i as int)),
        decreases exprs.len() - i,
    {
        if i > 0 {
            out.append(", ");
        }
        let t = exprs[i].to_string();
        out.append(t.as_str());
        proof {
            assert(views.take(i + 1).drop_last() =~= views.take(i as int));
            assert(views.take(i + 1).last() == exprs@[i as int]@);
            if i == 0 {
                assert(Seq::<char>::empty() + t@ =~= t@);
            }
        }
        i += 1;
    }
    assert(views.take(exprs.len() as int) =~= views);
    out
}

fn lines_text(stmts: &Vec<Box<Statement>>) -> (r: String)
    ensures
        r@ == render_lines(stmts_view(stmts@)),
    decreases stmts,
{
    let ghost views = stmts_view(stmts@);
    let mut out = String::new();
    let mut i: usize = 0;
    while i < stmts.len()
        invariant
            i <= stmts.len(),
            views == stmts_view(stmts@),
            out@ == render_lines(views.take(i as int)),
        decreases stmts.len() - i,
    {
        out.append("  ");
        let t = stmts[i].to_string();
        out.append(t.as_str());
        out.append("\n");
        proof {
            assert(views.take(i + 1).drop_last() =~= views.take(i as int));
            assert(views.take(i + 1).last() == stmts@[i as int]@);
        }
        i += 1;
    }
    assert(views.take(stmts.len() as int) =~= views);
    out
}

impl Identifier {
    pub fn token_literal(&self) -> (r: String)
        ensures
            r@ == self.token@.text(),
    {
        self.token.literal()
    }

    pub fn to_string(&self) -> (r: String)
        ensures
            r@ == render_expr(self.model()),
    {
        self.token.literal()
    }
}

impl Integer {
    pub fn token_literal(&self) -> (r: String)
        ensures
            r@ == self.token@.text(),
    {
        self.token.literal()
    }

    pub fn to_string(&self) -> (r: String)
        ensures
            r@ == render_expr(self.model()),
    {
        self.token.literal()
    }
}

impl Float {
    pub fn token_literal(&self) -> (r: String)
        ensures
            r@ == self.token@.text(),
    {
        self.token.literal()
    }

    pub fn to_string(&self) -> (r: String)
        ensures
            r@ == render_expr(self.model()),
    {
        self.token.literal()
    }
}

impl Boolean {
    pub fn token_literal(&self) -> (r: String)
        ensures
            r@ == self.token@.text(),
    {
        self.token.literal()
    }

    pub fn to_string(&self) -> (r: String)
        ensures
            r@ == render_expr(self.model()),
    {
        self.token.literal()
    }
}

impl StringLiteral {
    pub fn token_literal(&self) -> (r: String)
        ensures
            r@ == self.token@.text(),
    {
        self.token.literal()
    }

    pub fn to_string(&self) -> (r: String)
        ensures
            r@ == render_expr(self.model()),
    {
        self.token.literal()
    }
}

impl Array {
    pub fn token_literal(&self) -> (r: String)
        ensures
            r@ == self.token@.text(),
    {
        self.token.literal()
    }

    pub fn to_string(&self) -> (r: String)
        ensures
            r@ == render_expr(self.model()),
        decreases self,
    {
        let mut out = self.token.literal();
        let inner = exprs_text(&self.elements);
        out.append(inner.as_str());
        out.append("]");
        out
    }
}

impl Prefixed {
    pub fn token_literal(&self) -> (r: String)
        ensures
            r@ == self.op@.text(),
    {
        self.op.literal()
    }

    pub fn to_string(&self) -> (r: String)
        ensures
            r@ == render_expr(self.model()),
        decreases self,
    {
        let mut out = "(".to_owned();
        let op = self.op.literal();
        out.append(op.as_str());
        let right = self.right.to_string();
        out.append(right.as_str());
        out.append(")");
        out
    }
}

impl Infixed {
    pub fn token_literal(&self) -> (r: String)
        ensures
            r@ == self.op@.text(),
    {
        self.op.literal()
    }

    pub fn to_string(&self) -> (r: String)
        ensures
            r@ == render_expr(self.model()),
        decreases self,
    {
        let mut out = "(".to_owned();
        let left = self.left.to_string();
        out.append(left.as_str());
        let op = self.op.literal();
        out.append(op.as_str());
        let right = self.right.to_string();
        out.append(right.as_str());
        out.append(")");
        out
    }
}

impl FunctionExpression {
    pub fn token_literal(&self) -> (r: String)
        ensures
            r@ == self.token@.text(),
    {
        self.token.literal()
    }

    pub fn to_string(&self) -> (r: String)
        ensures
            r@ == render_expr(self.model()),
        decreases self,
    {
        let mut out = self.token.literal();
        out.append(" (");
        let parameters = names_text(&self.parameters);
        out.append(parameters.as_str());
        out.append(") ");
        let body = self.body.to_string();
        out.append(body.as_str());
        out
    }
}

impl FunctionCall {
    pub fn token_literal(&self) -> (r: String)
        ensures
            r@ == self.token@.text(),
    {
        self.token.literal()
    }

    pub fn to_string(&self) -> (r: String)
        ensures
            r@ == render_expr(self.model()),
        decreases self,
    {
        let mut out = self.function.to_string();
        out.append("(");
        let arguments = exprs_text(&self.arguments);
        out.append(arguments.as_str());
        out.append(")");
        out
    }
}

impl Index {
    pub fn token_literal(&self) -> (r: String)
        ensures
            r@ == self.token@.text(),
    {
        self.token.literal()
    }

    pub fn to_string(&self) -> (r: String)
        ensures
            r@ == render_expr(self.model()),
        decreases self,
    {
        let mut out = self.of.to_string();
        out.append("[");
        let index = self.index.to_string();
        out.append(index.as_str());
        out.append("]");
        out
    }
}

impl Expression {
    pub fn token_literal(&self) -> (r: String)
        ensures
            r@ == expr_token(self@).text(),
    {
        match self {
            Expression::Boolean(n) => n.token_literal(),
            Expression::FunctionCall(n) => n.token_literal(),
            Expression::Float(n) => n.token_literal(),
            Expression::Function(n) => n.token_literal(),
            Expression::Identifier(n) => n.token_literal(),
            Expression::Infixed(n) => n.token_literal(),
            Expression::Integer(n) => n.token_literal(),
            Expression::Prefixed(n) => n.token_literal(),
            Expression::StringLiteral(n) => n.token_literal(),
            Expression::Array(n) => n.token_literal(),
            Expression::Index(n) => n.token_literal(),
        }
    }

    pub fn to_string(&self) -> (r: String)
        ensures
            r@ == render_expr(self@),
        decreases self,
    {
        match self {
            Expression::Boolean(n) => n.to_string(),
            Expression::FunctionCall(n) => n.to_string(),
            Expression::Float(n) => n.to_string(),
            Expression::Function(n) => n.to_string(),
            Expression::Identifier(n) => n.to_string(),
            Expression::Infixed(n) => n.to_string(),
            Expression::Integer(n) => n.to_string(),
            Expression::Prefixed(n) => n.to_string(),
            Expression::StringLiteral(n) => n.to_string(),
            Expression::Array(n) => n.to_string(),
            Expression::Index(n) => n.to_string(),
        }
    }
}

impl Block {
    pub fn token_literal(&self) -> (r: String)
        ensures
            r@ == self.token@.text(),
    {
        self.token.literal()
    }

    pub fn to_string(&self) -> (r: String)
        ensures
            r@ == render_block(self@),
        decreases self,
    {
        let mut out = "{\n".to_owned();
        let lines = lines_text(&self.statements);
        out.append(lines.as_str());
        out.append("}");
        out
    }
}

impl ExpressionStatement {
    pub fn token_literal(&self) -> (r: String)
        ensures
            r@ == self.token@.text(),
    {
        self.token.literal()
    }

    pub fn to_string(&self) -> (r: String)
        ensures
            r@ == render_stmt(self.model()),
        decreases self,
    {
        self.expression.to_string()
    }
}

impl LetStatement {
    pub fn token_literal(&self) -> (r: String)
        ensures
            r@ == self.token@.text(),
    {
        self.token.literal()
    }

    pub fn to_string(&self) -> (r: String)
        ensures
            r@ == render_stmt(self.model()),
        decreases self,
    {
        let mut out = self.token.literal();
        out.append(" ");
        let name = self.identifier.token.literal();
        out.append(name.as_str());
        out.append(" = ");
        let value = self.value.to_string();
        out.append(value.as_str());
        out
    }
}

impl ReturnStatement {
    pub fn token_literal(&self) -> (r: String)
        ensures
            r@ == self.token@.text(),
    {
        self.token.literal()
    }

    pub fn to_string(&self) -> (r: String)
        ensures
            r@ == render_stmt(self.model()),
        decreases self,
    {
        let mut out = self.token.literal();
        out.append(" ");
        let value = self.value.to_string();
        out.append(value.as_str());
        out
    }
}

impl FunctionDeclaration {
    pub fn token_literal(&self) -> (r: String)
        ensures
            r@ == self.token@.text(),
    {
        self.token.literal()
    }

    pub fn to_string(&self) -> (r: String)
        ensures
            r@ == render_stmt(self.model()),
        decreases self,
    {
        let mut out = self.token.literal();
        out.append(" ");
        let name = self.identifier.token.literal();
        out.append(name.as_str());
        out.append("(");
        let parameters = names_text(&self.parameters);
        out.append(parameters.as_str());
        out.append(") ");
        let body = self.body.to_string();
        out.append(body.as_str());
        out
    }
}

impl ConditionStatement {
    pub fn token_literal(&self) -> (r: String)
        ensures
            r@ == self.token@.text(),
    {
        self.token.literal()
    }

    pub fn to_string(&self) -> (r: String)
        ensures
            r@ == render_stmt(self.model()),
        decreases self,
    {
        let mut out = self.token.literal();
        out.append(" (");
        let condition = self.condition.to_string();
        out.append(condition.as_str());
        out.append(") ");
        let if_true = self.if_true.to_string();
        out.append(if_true.as_str());
        match &self.if_false {
            Some(b) => {
                out.append(" else ");
                let if_false = b.to_string();
                out.append(if_false.as_str());
            },
            None => {},
        }
        out
    }
}

impl AssignStatement {
    pub fn token_literal(&self) -> (r: String)
        ensures
            r@ == self.identifier.token@.text(),
    {
        self.identifier.token.literal()
    }

    pub fn to_string(&self) -> (r: String)
        ensures
            r@ == render_stmt(self.model()),
        decreases self,
    {
        let mut out = self.identifier.token.literal();
        out.append(" = ");
        let value = self.value.to_string();
        out.append(value.as_str());
        out
    }
}

impl Statement {
    pub fn token_literal(&self) -> (r: String)
        ensures
            r@ == stmt_token(self@).text(),
    {
        match self {
            Statement::Block(n) => n.token_literal(),
            Statement::ExpressionStatement(n) => n.token_literal(),
            Statement::LetStatement(n) => n.token_literal(),
            Statement::ReturnStatement(n) => n.token_literal(),
            Statement::FunctionDeclaration(n) => n.token_literal(),
            Statement::Condition(n) => n.token_literal(),
            Statement::Assign(n) => n.token_literal(),
        }
    }

    pub fn to_string(&self) -> (r: String)
        ensures
            r@ == render_stmt(self@),
        decreases self,
    {
        match self {
            Statement::Block(n) => n.to_string(),
            Statement::ExpressionStatement(n) => n.to_string(),
            Statement::LetStatement(n) => n.to_string(),
            Statement::ReturnStatement(n) => n.to_string(),
            Statement::FunctionDeclaration(n) => n.to_string(),
            Statement::Condition(n) => n.to_string(),
            Statement::Assign(n) => n.to_string(),
        }
    }
}

impl Program {
    /// A program came from no token of its own: the empty text.
    pub fn token_literal(&self) -> (r: String)
        ensures
            r@ == Seq::<char>::empty(),
    {
        String::new()
    }

    pub fn to_string(&self) -> (r: String)
        ensures
            r@ == render_program(self@),
    {
        let ghost views = self@;
        let mut out = String::new();
        let mut i: usize = 0;
        while i < self.statements.len()
            invariant
                i <= self.statements.len(),
                views == stmts_view(self.statements@),
                out@ == render_program(views.take(i as int)),
            decreases self.statements.len() - i,
        {
            if i > 0 {
                out.append("\n");
            }
            let t = self.statements[i].to_string();
            out.append(t.as_str());
            proof {
                assert(views.take(i + 1).drop_last() =~= views.take(i as int));
                assert(views.take(i + 1).last() == self.statements@[i as int]@);
                if i == 0 {
                    assert(Seq::<char>::empty() + t@ =~= t@);
                }
            }
            i += 1;
        }
        assert(views.take(self.statements.len() as int) =~= views);
        out
    }
}

impl Node for Expression {
    open spec fn token_text(&self) -> Seq<char> {
        expr_token(self@).text()
    }

    open spec fn text(&self) -> Seq<char> {
        render_expr(self@)
    }

    fn token_literal(&self) -> (r: String) {
        Expression::token_literal(self)
    }

    fn to_string(&self) -> (r: String) {
        Expression::to_string(self)
    }
}

impl Node for Statement {
    open spec fn token_text(&self) -> Seq<char> {
        stmt_token(self@).text()
    }

    open spec fn text(&self) -> Seq<char> {
        render_stmt(self@)
    }

    fn token_literal(&self) -> (r: String) {
        Statement::token_literal(self)
    }

    fn to_string(&self) -> (r: String) {
        Statement::to_string(self)
    }
}

impl Node for Block {
    open spec fn token_text(&self) -> Seq<char> {
        self.token@.text()
    }

    open spec fn text(&self) -> Seq<char> {
        render_block(self@)
    }

    fn token_literal(&self) -> (r: String) {
        Block::token_literal(self)
    }

    fn to_string(&self) -> (r: String) {
        Block::to_string(self)
    }
}

impl Node for Program {
    open spec fn token_text(&self) -> Seq<char> {
        Seq::empty()
    }

    open spec fn text(&self) -> Seq<char> {
        render_program(self@)
    }

    fn token_literal(&self) -> (r: String) {
        Program::token_literal(self)
    }

    fn to_string(&self) -> (r: String) {
        Program::to_string(self)
    }
}

} // verus!
