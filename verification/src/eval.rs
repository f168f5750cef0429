//! What the operations of the language yield: prefix and infix operations,
//! indexing and the native functions, each as a function of the operands.
//!
//! The library does no floating-point arithmetic. An operation on floats
//! yields a request that says what is to be computed; whoever runs the
//! program computes it and hands the result back.

use vstd::prelude::*;
use vstd::string::StringExecFns;
use std::rc::Rc;
use vstd::wrapping::i64_specs::{wrapping_add, wrapping_mul, wrapping_sub};
use crate::shared::share;
use crate::text::{i64_to_string, int_text, push_char, to_chars};
use crate::token::{Position, Token, TokenKind, TokenKindView, TokenView};
use crate::value::{
    display, display_all, display_values, is_zero_bits, values_view, FloatValue, Value, ValueView,
};

verus! {

/// What can go wrong in evaluation. `S` is the type of the texts: the
/// display text of operands, the text of operators, names.
#[derive(Debug, PartialEq)]
pub enum EvalError<S = String> {
    /// A `let` or an assignment of a value that is `Void`.
    TriedToStoreVoid(Position),
    /// The name is not bound.
    NotDefined(S, Position),
    /// The operator and the operand.
    InvalidPrefixOperation(S, S, Position),
    /// The left operand, the operator and the right operand.
    InvalidInfixOperation(S, S, S, Position),
    /// The dividend and the divisor.
    DivisionByZero(S, S, Position),
    VoidValueAsArgument(Position),
    NotAFunction(Position),
    /// The number of parameters and the number of arguments.
    WrongNumberOfArguments(usize, usize, Position),
    /// The value of the condition.
    NonBooleanCondition(S, Position),
    /// The index and the length.
    IndexOutOfBounds(i64, usize, Position),
    /// The collection and the index.
    InvalidIndexExpression(S, S, Position),
    /// The native function, the number of arguments it takes and the number
    /// it was given.
    BuiltinWrongNumberOfArguments(S, usize, usize, Position),
    /// The native function, what it takes and what it was given.
    BuiltinWrongArgumentType(S, S, S, Position),
}

/// An evaluation error as specifications see it.
pub type EvalErrorView = EvalError<Seq<char>>;

impl View for EvalError<String> {
    type V = EvalErrorView;

    open spec fn view(&self) -> EvalErrorView {
        match self {
            EvalError::TriedToStoreVoid(p) => EvalError::TriedToStoreVoid(*p),
            EvalError::NotDefined(a, p) => EvalError::NotDefined(a@, *p),
            EvalError::InvalidPrefixOperation(a, b, p) => EvalError::InvalidPrefixOperation(
                a@,
                b@,
                *p,
            ),
            EvalError::InvalidInfixOperation(a, b, c, p) => EvalError::InvalidInfixOperation(
                a@,
                b@,
                c@,
                *p,
            ),
            EvalError::DivisionByZero(a, b, p) => EvalError::DivisionByZero(a@, b@, *p),
            EvalError::VoidValueAsArgument(p) => EvalError::VoidValueAsArgument(*p),
            EvalError::NotAFunction(p) => EvalError::NotAFunction(*p),
            EvalError::WrongNumberOfArguments(a, b, p) => EvalError::WrongNumberOfArguments(
                *a,
                *b,
                *p,
            ),
            EvalError::NonBooleanCondition(a, p) => EvalError::NonBooleanCondition(a@, *p),
            EvalError::IndexOutOfBounds(a, b, p) => EvalError::IndexOutOfBounds(*a, *b, *p),
            EvalError::InvalidIndexExpression(a, b, p) => EvalError::InvalidIndexExpression(
                a@,
                b@,
                *p,
            ),
            EvalError::BuiltinWrongNumberOfArguments(a, b, c, p) => EvalError::BuiltinWrongNumberOfArguments(
                a@,
                *b,
                *c,
                *p,
            ),
            EvalError::BuiltinWrongArgumentType(a, b, c, p) => EvalError::BuiltinWrongArgumentType(
                a@,
                b@,
                c@,
                *p,
            ),
        }
    }
}

/// The operations on two floats.
#[derive(Debug, Clone, Copy, PartialEq, Eq, Structural)]
pub enum FloatOp {
    Add,
    Subtract,
    Multiply,
    Divide,
    Equal,
    NotEqual,
    Less,
    Greater,
    LessOrEqual,
    GreaterOrEqual,
}

/// An operand of an operation on floats: a float, or an integer that is to
/// be converted to a float before the operation.
#[derive(Debug, PartialEq)]
pub enum Operand<S = String> {
    Integer(i64),
    Float(FloatValue<S>),
}

/// An operand as specifications see it.
pub type OperandView = Operand<Seq<char>>;

impl View for Operand<String> {
    type V = OperandView;

    open spec fn view(&self) -> OperandView {
        match self {
            Operand::Integer(i) => Operand::Integer(*i),
            Operand::Float(f) => Operand::Float(f@),
        }
    }
}

/// A floating-point computation that the library asks for. The answer to
/// `Literal` and `Negate`, and to an arithmetic `Binary`, is a float; the
/// answer to a comparing `Binary` is a boolean.
#[derive(Debug, PartialEq)]
pub enum FloatRequest<S = String> {
    /// The float that the text of a literal denotes.
    Literal(S),
    /// The negation of a float.
    Negate(FloatValue<S>),
    /// An operation on two operands.
    Binary(FloatOp, Operand<S>, Operand<S>),
}

/// A request as specifications see it.
pub type FloatRequestView = FloatRequest<Seq<char>>;

impl View for FloatRequest<String> {
    type V = FloatRequestView;

    open spec fn view(&self) -> FloatRequestView {
        match self {
            FloatRequest::Literal(s) => FloatRequest::Literal(s@),
            FloatRequest::Negate(f) => FloatRequest::Negate(f@),
            FloatRequest::Binary(op, l, r) => FloatRequest::Binary(*op, l@, r@),
        }
    }
}

/// What an operation yields.
#[derive(Debug, PartialEq)]
pub enum Outcome {
    /// The result.
    Value(Rc<Value>),
    /// The result is that of a floating-point computation.
    Ask(FloatRequest),
    /// The operation fails.
    Error(EvalError),
}

/// The outcome of an operation as specifications see it.
pub enum OutcomeView {
    Value(ValueView),
    Ask(FloatRequestView),
    Error(EvalErrorView),
}

impl View for Outcome {
    type V = OutcomeView;

    open spec fn view(&self) -> OutcomeView {
        match self {
            Outcome::Value(v) => OutcomeView::Value(v@),
            Outcome::Ask(r) => OutcomeView::Ask(r@),
            Outcome::Error(e) => OutcomeView::Error(e@),
        }
    }
}

/// The operation on floats that an operator token stands for.
pub open spec fn float_op(kind: TokenKindView) -> Option<FloatOp> {
    match kind {
        TokenKind::Plus => Some(FloatOp::Add),
        TokenKind::Minus => Some(FloatOp::Subtract),
        TokenKind::Asterisk => Some(FloatOp::Multiply),
        TokenKind::Slash => Some(FloatOp::Divide),
        TokenKind::EqualsEquals => Some(FloatOp::Equal),
        TokenKind::BangEquals => Some(FloatOp::NotEqual),
        TokenKind::LessThan => Some(FloatOp::Less),
        TokenKind::GreaterThan => Some(FloatOp::Greater),
        TokenKind::LessThanEquals => Some(FloatOp::LessOrEqual),
        TokenKind::GreaterThanEquals => Some(FloatOp::GreaterOrEqual),
        _ => None,
    }
}

/// The magnitude of an integer.
pub open spec fn magnitude(i: i64) -> nat {
    if i < 0 {
        (-i) as nat
    } else {
        i as nat
    }
}

/// The quotient of two integers, rounded towards zero. The one quotient
/// that does not fit, that of the least integer by -1, wraps around to the
/// least integer.
pub open spec fn quotient(l: i64, r: i64) -> i64
    recommends
        r != 0,
{
    if l == i64::MIN && r == -1 {
        i64::MIN
    } else if (l < 0) != (r < 0) {
        (-((magnitude(l) / magnitude(r)) as int)) as i64
    } else {
        (magnitude(l) / magnitude(r)) as i64
    }
}

/// The error for an infix operation that the operands do not have.
pub open spec fn invalid_infix(op: TokenView, left: Seq<char>, right: Seq<char>) -> OutcomeView {
    OutcomeView::Error(
        EvalError::InvalidInfixOperation(left, op.text(), right, op.position),
    )
}

/// An infix operation on two integers. Sums, differences and products wrap
/// around in two's complement; a division by zero fails.
pub open spec fn int_infix(op: TokenView, l: i64, r: i64) -> OutcomeView {
    if op.kind is Slash && r == 0 {
        OutcomeView::Error(EvalError::DivisionByZero(int_text(l as int), int_text(r as int), op.position))
    } else {
        match op.kind {
            TokenKind::Plus => OutcomeView::Value(ValueView::Integer(wrapping_add(l, r))),
            TokenKind::Minus => OutcomeView::Value(ValueView::Integer(wrapping_sub(l, r))),
            TokenKind::Asterisk => OutcomeView::Value(ValueView::Integer(wrapping_mul(l, r))),
            TokenKind::Slash => OutcomeView::Value(ValueView::Integer(quotient(l, r))),
            TokenKind::EqualsEquals => OutcomeView::Value(ValueView::Boolean(l == r)),
            TokenKind::BangEquals => OutcomeView::Value(ValueView::Boolean(l != r)),
            TokenKind::LessThan => OutcomeView::Value(ValueView::Boolean(l < r)),
            TokenKind::GreaterThan => OutcomeView::Value(ValueView::Boolean(l > r)),
            TokenKind::LessThanEquals => OutcomeView::Value(ValueView::Boolean(l <= r)),
            TokenKind::GreaterThanEquals => OutcomeView::Value(ValueView::Boolean(l >= r)),
            _ => invalid_infix(op, int_text(l as int), int_text(r as int)),
        }
    }
}

/// An infix operation on two strings: concatenation and the two equality
/// tests.
pub open spec fn string_infix(op: TokenView, l: Seq<char>, r: Seq<char>) -> OutcomeView {
    match op.kind {
        TokenKind::Plus => OutcomeView::Value(ValueView::String(l + r)),
        TokenKind::EqualsEquals => OutcomeView::Value(ValueView::Boolean(l == r)),
        TokenKind::BangEquals => OutcomeView::Value(ValueView::Boolean(l != r)),
        _ => invalid_infix(op, l, r),
    }
}

/// An infix operation on two booleans: the two equality tests.
pub open spec fn bool_infix(op: TokenView, l: bool, r: bool) -> OutcomeView {
    match op.kind {
        TokenKind::EqualsEquals => OutcomeView::Value(ValueView::Boolean(l == r)),
        TokenKind::BangEquals => OutcomeView::Value(ValueView::Boolean(l != r)),
        _ => invalid_infix(
            op,
            display(ValueView::Boolean(l)),
            display(ValueView::Boolean(r)),
        ),
    }
}

/// Whether the operand is zero.
pub open spec fn operand_is_zero(x: OperandView) -> bool {
    match x {
        Operand::Integer(i) => i == 0,
        Operand::Float(f) => is_zero_bits(f.bits),
    }
}

/// The display text of an operand.
pub open spec fn operand_text(x: OperandView) -> Seq<char> {
    match x {
        Operand::Integer(i) => int_text(i as int),
        Operand::Float(f) => f.text,
    }
}

/// An infix operation on two numbers of which one at least is a float: a
/// division by zero fails, any other arithmetic or comparison is asked for.
pub open spec fn float_infix(op: TokenView, l: OperandView, r: OperandView) -> OutcomeView {
    if op.kind is Slash && operand_is_zero(r) {
        OutcomeView::Error(
            EvalError::DivisionByZero(operand_text(l), operand_text(r), op.position),
        )
    } else {
        match float_op(op.kind) {
            Some(f) => OutcomeView::Ask(FloatRequest::Binary(f, l, r)),
            None => invalid_infix(op, operand_text(l), operand_text(r)),
        }
    }
}

/// An infix operation. The operands have to be of the same kind, integers,
/// floats, strings or booleans, or an integer and a float.
pub open spec fn infix_result(op: TokenView, l: ValueView, r: ValueView) -> OutcomeView {
    match (l, r) {
        (ValueView::String(a), ValueView::String(b)) => string_infix(op, a, b),
        (ValueView::Integer(a), ValueView::Integer(b)) => int_infix(op, a, b),
        (ValueView::Boolean(a), ValueView::Boolean(b)) => bool_infix(op, a, b),
        (ValueView::Float(a), ValueView::Float(b)) => float_infix(
            op,
            Operand::Float(a),
            Operand::Float(b),
        ),
        (ValueView::Integer(a), ValueView::Float(b)) => float_infix(
            op,
            Operand::Integer(a),
            Operand::Float(b),
        ),
        (ValueView::Float(a), ValueView::Integer(b)) => float_infix(
            op,
            Operand::Float(a),
            Operand::Integer(b),
        ),
        _ => invalid_infix(op, display(l), display(r)),
    }
}

/// A prefix operation: `!` on a boolean, `-` on a number. The negation of
/// the least integer wraps around to itself.
pub open spec fn prefix_result(op: TokenView, v: ValueView) -> OutcomeView {
    let invalid = OutcomeView::Error(
        EvalError::InvalidPrefixOperation(op.text(), display(v), op.position),
    );
    match op.kind {
        TokenKind::Bang => match v {
            ValueView::Boolean(b) => OutcomeView::Value(ValueView::Boolean(!b)),
            _ => invalid,
        },
        TokenKind::Minus => match v {
            ValueView::Integer(i) => OutcomeView::Value(ValueView::Integer(wrapping_sub(0, i))),
            ValueView::Float(f) => OutcomeView::Ask(FloatRequest::Negate(f)),
            _ => invalid,
        },
        _ => invalid,
    }
}

/// The element of an array, or the character of a string as a string of
/// its own, at an integer index within the length.
pub open spec fn index_result(token: TokenView, of: ValueView, index: ValueView) -> OutcomeView {
    let invalid = OutcomeView::Error(
        EvalError::InvalidIndexExpression(display(of), display(index), token.position),
    );
    match of {
        ValueView::Array(values) => match index {
            ValueView::Integer(i) => if 0 <= i < values.len() {
                OutcomeView::Value(values[i as int])
            } else {
                OutcomeView::Error(
                    EvalError::IndexOutOfBounds(i, values.len() as usize, token.position),
                )
            },
            _ => invalid,
        },
        ValueView::String(s) => match index {
            ValueView::Integer(i) => if 0 <= i < s.len() {
                OutcomeView::Value(ValueView::String(seq![s[i as int]]))
            } else {
                OutcomeView::Error(
                    EvalError::IndexOutOfBounds(i, s.len() as usize, token.position),
                )
            },
            _ => invalid,
        },
        _ => invalid,
    }
}

/// A count as an integer value: the count itself, or the greatest integer
/// if the count is greater.
pub open spec fn counted(n: nat) -> i64 {
    if n <= i64::MAX {
        n as i64
    } else {
        i64::MAX
    }
}

/// The native function `len`: the number of characters of a string or of
/// elements of an array, its one argument.
pub open spec fn length_result(args: Seq<ValueView>, pos: Position) -> OutcomeView {
    if args.len() != 1 {
        OutcomeView::Error(
            EvalError::BuiltinWrongNumberOfArguments("len"@, 1, args.len() as usize, pos),
        )
    } else {
        match args[0] {
            ValueView::String(s) => OutcomeView::Value(ValueView::Integer(counted(s.len()))),
            ValueView::Array(values) => OutcomeView::Value(
                ValueView::Integer(counted(values.len())),
            ),
            _ => OutcomeView::Error(
                EvalError::BuiltinWrongArgumentType(
                    "len"@,
                    "String or Array"@,
                    display(args[0]),
                    pos,
                ),
            ),
        }
    }
}

/// What the native functions `print` and `println` write: the display
/// texts of the arguments, separated by a space.
pub open spec fn printed(args: Seq<ValueView>) -> Seq<char> {
    display_all(args, " "@)
}

fn invalid_infix_operation(op: &Token, left: String, right: String) -> (r: Outcome)
    ensures
        r@ == invalid_infix(op@, left@, right@),
{
    Outcome::Error(EvalError::InvalidInfixOperation(left, op.literal(), right, op.position))
}

fn magnitude_of(i: i64) -> (r: u64)
    ensures
        r == magnitude(i),
{
    if i == i64::MIN {
        0x8000_0000_0000_0000u64
    } else if i < 0 {
        (-i) as u64
    } else {
        i as u64
    }
}

fn divide(l: i64, r: i64) -> (q: i64)
    requires
        r != 0,
    ensures
        q == quotient(l, r),
{
    if l == i64::MIN && r == -1 {
        i64::MIN
    } else {
        let a = magnitude_of(l);
        let b = magnitude_of(r);
        let m = a / b;
        assert(m <= a) by (nonlinear_arith)
            requires
                m == a / b,
                b > 0,
        ;
        if (l < 0) != (r < 0) {
            if m == 0x8000_0000_0000_0000u64 {
                i64::MIN
            } else {
                -(m as i64)
            }
        } else {
            assert(m <= i64::MAX) by (nonlinear_arith)
                requires
                    m == a / b,
                    b > 0,
                    a <= 0x8000_0000_0000_0000u64,
                    a == 0x8000_0000_0000_0000u64 ==> b > 1,
            ;
            m as i64
        }
    }
}

pub fn eval_int_infix(left: i64, op: &Token, right: i64) -> (r: Outcome)
    ensures
        r@ == int_infix(op@, left, right),
{
    if matches!(op.kind, TokenKind::Slash) && right == 0 {
        return Outcome::Error(
            EvalError::DivisionByZero(i64_to_string(left), i64_to_string(right), op.position),
        );
    }
    match &op.kind {
        TokenKind::Plus => Outcome::Value(Value::new_integer(left.wrapping_add(right))),
        TokenKind::Minus => Outcome::Value(Value::new_integer(left.wrapping_sub(right))),
        TokenKind::Asterisk => Outcome::Value(Value::new_integer(left.wrapping_mul(right))),
        TokenKind::Slash => Outcome::Value(Value::new_integer(divide(left, right))),
        TokenKind::EqualsEquals => Outcome::Value(Value::from_native_bool(left == right)),
        TokenKind::BangEquals => Outcome::Value(Value::from_native_bool(left != right)),
        TokenKind::LessThan => Outcome::Value(Value::from_native_bool(left < right)),
        TokenKind::GreaterThan => Outcome::Value(Value::from_native_bool(left > right)),
        TokenKind::LessThanEquals => Outcome::Value(Value::from_native_bool(left <= right)),
        TokenKind::GreaterThanEquals => Outcome::Value(Value::from_native_bool(left >= right)),
        _ => invalid_infix_operation(op, i64_to_string(left), i64_to_string(right)),
    }
}

pub fn eval_string_infix(left: &String, op: &Token, right: &String) -> (r: Outcome)
    ensures
        r@ == string_infix(op@, left@, right@),
{
    match &op.kind {
        TokenKind::Plus => {
            let mut joined = left.clone();
            joined.append(right.as_str());
            Outcome::Value(Value::new_string(joined))
        },
        TokenKind::EqualsEquals => Outcome::Value(Value::from_native_bool(*left == *right)),
        TokenKind::BangEquals => Outcome::Value(Value::from_native_bool(!(*left == *right))),
        _ => invalid_infix_operation(op, left.clone(), right.clone()),
    }
}

pub fn eval_bool_infix(left: bool, op: &Token, right: bool) -> (r: Outcome)
    ensures
        r@ == bool_infix(op@, left, right),
{
    match &op.kind {
        TokenKind::EqualsEquals => Outcome::Value(Value::from_native_bool(left == right)),
        TokenKind::BangEquals => Outcome::Value(Value::from_native_bool(left != right)),
        _ => invalid_infix_operation(op, bool_text(left), bool_text(right)),
    }
}

fn bool_text(b: bool) -> (r: String)
    ensures
        r@ == display(ValueView::Boolean(b)),
{
    if b {
        "true".to_owned()
    } else {
        "false".to_owned()
    }
}

impl Operand<String> {
    /// Whether the operand is zero.
    pub fn is_zero(&self) -> (r: bool)
        ensures
            r == operand_is_zero(self@),
    {
        match self {
            Operand::Integer(i) => *i == 0,
            Operand::Float(f) => f.is_zero(),
        }
    }

    /// The display text of the operand.
    pub fn to_string(&self) -> (r: String)
        ensures
            r@ == operand_text(self@),
    {
        match self {
            Operand::Integer(i) => i64_to_string(*i),
            Operand::Float(f) => f.text.clone(),
        }
    }
}

/// The operation on floats that the operator stands for.
fn float_op_of(kind: &TokenKind) -> (r: Option<FloatOp>)
    ensures
        r == float_op(kind@),
{
    match kind {
        TokenKind::Plus => Some(FloatOp::Add),
        TokenKind::Minus => Some(FloatOp::Subtract),
        TokenKind::Asterisk => Some(FloatOp::Multiply),
        TokenKind::Slash => Some(FloatOp::Divide),
        TokenKind::EqualsEquals => Some(FloatOp::Equal),
        TokenKind::BangEquals => Some(FloatOp::NotEqual),
        TokenKind::LessThan => Some(FloatOp::Less),
        TokenKind::GreaterThan => Some(FloatOp::Greater),
        TokenKind::LessThanEquals => Some(FloatOp::LessOrEqual),
        TokenKind::GreaterThanEquals => Some(FloatOp::GreaterOrEqual),
        _ => None,
    }
}

pub fn eval_float_infix(left: Operand, op: &Token, right: Operand) -> (r: Outcome)
    ensures
        r@ == float_infix(op@, left@, right@),
{
    if matches!(op.kind, TokenKind::Slash) && right.is_zero() {
        return Outcome::Error(
            EvalError::DivisionByZero(left.to_string(), right.to_string(), op.position),
        );
    }
    match float_op_of(&op.kind) {
        Some(f) => Outcome::Ask(FloatRequest::Binary(f, left, right)),
        None => invalid_infix_operation(op, left.to_string(), right.to_string()),
    }
}

/// Applies the infix operator `op` to two values.
pub fn eval_infix(left: &Value, op: &Token, right: &Value) -> (r: Outcome)
    ensures
        r@ == infix_result(op@, left@, right@),
{
    match (left, right) {
        (Value::String(a), Value::String(b)) => eval_string_infix(a, op, b),
        (Value::Integer(a), Value::Integer(b)) => eval_int_infix(*a, op, *b),
        (Value::Boolean(a), Value::Boolean(b)) => eval_bool_infix(*a, op, *b),
        (Value::Float(a), Value::Float(b)) => eval_float_infix(
            Operand::Float(a.dup()),
            op,
            Operand::Float(b.dup()),
        ),
        (Value::Integer(a), Value::Float(b)) => eval_float_infix(
            Operand::Integer(*a),
            op,
            Operand::Float(b.dup()),
        ),
        (Value::Float(a), Value::Integer(b)) => eval_float_infix(
            Operand::Float(a.dup()),
            op,
            Operand::Integer(*b),
        ),
        _ => invalid_infix_operation(op, left.to_string(), right.to_string()),
    }
}

/// Applies the prefix operator `op` to a value.
pub fn eval_prefix(op: &Token, value: &Value) -> (r: Outcome)
    ensures
        r@ == prefix_result(op@, value@),
{
    match &op.kind {
        TokenKind::Bang => match value {
            Value::Boolean(b) => {
                return Outcome::Value(Value::from_native_bool(!*b));
            },
            _ => {},
        },
        TokenKind::Minus => match value {
            Value::Integer(i) => {
                return Outcome::Value(Value::new_integer((0i64).wrapping_sub(*i)));
            },
            Value::Float(f) => {
                return Outcome::Ask(FloatRequest::Negate(f.dup()));
            },
            _ => {},
        },
        _ => {},
    }
    Outcome::Error(
        EvalError::InvalidPrefixOperation(op.literal(), value.to_string(), op.position),
    )
}

/// Indexes `of`, an array or a string, by `index`. `token` is the opening
/// bracket, whose position an error names.
pub fn eval_index(token: &Token, of: &Value, index: &Value) -> (r: Outcome)
    ensures
        r@ == index_result(token@, of@, index@),
{
    match of {
        Value::Array(values) => match index {
            Value::Integer(i) => {
                let i = *i;
                assert(values_view(values@).len() == values@.len());
                assert(of@ == ValueView::Array(values_view(values@)));
                if i < 0 || i as u64 >= values.len() as u64 {
                    return Outcome::Error(
                        EvalError::IndexOutOfBounds(i, values.len(), token.position),
                    );
                }
                assert(values_view(values@)[i as int] == values@[i as int]@);
                return Outcome::Value(share(&values[i as usize]));
            },
            _ => {},
        },
        Value::String(s) => match index {
            Value::Integer(i) => {
                let i = *i;
                let chars = to_chars(s.as_str());
                if i < 0 || i as u64 >= chars.len() as u64 {
                    return Outcome::Error(
                        EvalError::IndexOutOfBounds(i, chars.len(), token.position),
                    );
                }
                let mut one = String::new();
                push_char(&mut one, chars[i as usize]);
                assert(one@ =~= seq![s@[i as int]]);
                return Outcome::Value(Value::new_string(one));
            },
            _ => {},
        },
        _ => {},
    }
    Outcome::Error(
        EvalError::InvalidIndexExpression(of.to_string(), index.to_string(), token.position),
    )
}

fn count(n: usize) -> (r: i64)
    ensures
        r == counted(n as nat),
{
    if n as u64 > i64::MAX as u64 {
        i64::MAX
    } else {
        n as i64
    }
}

/// The native function `len`. `pos` is the position of the call.
pub fn length(args: &Vec<Rc<Value>>, pos: Position) -> (r: Outcome)
    ensures
        r@ == length_result(values_view(args@), pos),
{
    if args.len() != 1 {
        return Outcome::Error(
            EvalError::BuiltinWrongNumberOfArguments("len".to_owned(), 1, args.len(), pos),
        );
    }
    assert(values_view(args@).len() == 1);
    assert(values_view(args@)[0] == args@[0]@);
    match &*args[0] {
        Value::String(s) => Outcome::Value(Value::new_integer(count(s.as_str().unicode_len()))),
        Value::Array(values) => {
            assert(values_view(values@).len() == values@.len());
            Outcome::Value(Value::new_integer(count(values.len())))
        },
        other => Outcome::Error(
            EvalError::BuiltinWrongArgumentType(
                "len".to_owned(),
                "String or Array".to_owned(),
                other.to_string(),
                pos,
            ),
        ),
    }
}

/// What the native functions `print` and `println` write for `args`.
pub fn print_text(args: &Vec<Rc<Value>>) -> (r: String)
    ensures
        r@ == printed(values_view(args@)),
{
    display_values(args, " ")
}

} // verus!
