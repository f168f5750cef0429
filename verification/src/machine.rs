//! The evaluator, as a machine that runs a program one step at a time.
//!
//! The machine holds the scopes, what it is about to do and a stack of what
//! is left to do afterwards. A step never waits and never computes with
//! floats: where the program prints, the step hands the text out; where it
//! computes with floats, the step hands out a request and the machine waits
//! for the answer. What a step does is specified by [`step`], a function of
//! the machine's state.
//!
//! Whoever runs a program starts it with [`Machine::start`] and then calls
//! [`Machine::step`], or [`Machine::run`], again and again. Each call says
//! what it asks for: to go on ([`Action::Continue`]), to write a text
//! ([`Action::Print`]), or to compute with floats ([`Action::Float`]) and
//! to hand the result in with [`Machine::resume`]; or that the program has
//! run to its end ([`Action::Done`]) or has failed ([`Action::Failed`]).
//! A program that calls itself without end keeps the machine stepping
//! without end: its stack grows on the heap.

use vstd::prelude::*;
use std::rc::Rc;
use crate::ast::{
    exprs_view, names_view, stmts_view, Block, BlockView, ExprView, Expression, Identifier,
    Program, Statement, StmtView,
};
use crate::env::{
    assigned, bound, captured_at, declared, frames_ok, lemma_owner, lookup, nested, owner,
    released, trimmed, ExecutionEnvironment, FrameView,
};
use crate::eval::{
    eval_index, eval_infix, eval_prefix, index_result, infix_result, length, length_result,
    prefix_result, print_text, printed, EvalError, EvalErrorView, FloatRequest, FloatRequestView,
    Outcome, OutcomeView,
};
use crate::pins::{
    all_pin, frames_pin, grows, lemma_assigned_pins, lemma_captured_pins, lemma_declared_pins,
    lemma_length_pins, lemma_lookup_pins, lemma_nested_pins, lemma_outcomes_pin,
    lemma_pins_after_release, lemma_pins_when_grown, lemma_released_pins, lemma_trimmed_pins,
    outcome_pins, pins,
};
use crate::shared::share;
use crate::token::{Token, TokenKind, TokenView};
use crate::value::{
    display, strings_view, unwrapped, values_view, Builtin, Value, ValueView,
};

verus! {

/// What the machine is about to do.
#[derive(Debug)]
pub enum Control {
    /// Nothing: no program is running.
    Idle,
    /// Evaluate the expression in the scope.
    Eval(Expression, usize),
    /// Execute the statement in the scope.
    Exec(Statement, usize),
    /// Hand the value to what is on top of the stack.
    Return(Rc<Value>),
    /// Wait for the answer to a request.
    Await,
}

/// What is left to do once a value arrives.
#[derive(Debug)]
pub enum Kont {
    /// Apply the prefix operator to the value.
    Prefix(Token),
    /// The value is the left operand: evaluate the right one in the scope.
    InfixRight(Token, Expression, usize),
    /// The value is the right operand: apply the operator to the left
    /// operand and to it.
    InfixApply(Token, Rc<Value>),
    /// The value is the next element of an array: the elements so far, all
    /// the element expressions and the scope.
    Elements(Vec<Rc<Value>>, Vec<Box<Expression>>, usize),
    /// The value is the callee of the call at the token: the argument
    /// expressions and the scope.
    Callee(Token, Vec<Box<Expression>>, usize),
    /// The value is the next argument of the call at the token: the callee,
    /// the arguments so far, all the argument expressions and the scope.
    Arguments(Token, Rc<Value>, Vec<Rc<Value>>, Vec<Box<Expression>>, usize),
    /// The value is the result of the body of a function that was called
    /// in the scope, which was made for the call.
    CallBoundary(usize),
    /// The value is the collection: evaluate the index in the scope.
    IndexRight(Token, Expression, usize),
    /// The value is the index: index the collection by it.
    IndexApply(Token, Rc<Value>),
    /// The value is that of the `let` at the first token: bind the name,
    /// the second token, in the scope.
    Let(Token, Token, usize),
    /// The value is to be assigned to the name from the scope.
    Assign(Token, usize),
    /// The value is that of a `return`.
    ReturnWrap,
    /// The value is the result of a statement of the block: go on with the
    /// statement at the index, in the scope.
    Block(Rc<Block>, usize, usize),
    /// The value is the condition of the `if` at the token: the two
    /// branches and the scope.
    Branch(Token, Rc<Block>, Option<Rc<Block>>, usize),
    /// The value is the result of a branch that ran in the scope, which
    /// was made for it.
    BranchEnd(usize),
    /// The value is the result of a block that stood as a statement and ran
    /// in the scope, which was made for it.
    BlockEnd(usize),
    /// The value is the result of a statement of the program: go on with
    /// the statement at the index, in the scope.
    Program(Vec<Box<Statement>>, usize, usize),
}

/// What a step asks of whoever runs the machine.
#[derive(Debug, PartialEq)]
pub enum Action {
    /// Nothing: step again.
    Continue,
    /// Compute what the request says and `resume` with the result.
    Float(FloatRequest),
    /// Write the text, with a line break after it if the flag is set.
    Print(String, bool),
    /// The program has run to its end, with this value.
    Done(Rc<Value>),
    /// The program has failed.
    Failed(EvalError),
    /// There is nothing to do: no program is running, or the machine waits
    /// for an answer.
    Stalled,
}

/// What the machine is about to do, as specifications see it.
pub enum ControlView {
    Idle,
    Eval(ExprView, nat),
    Exec(StmtView, nat),
    Return(ValueView),
    Await,
}

/// What is left to do, as specifications see it.
pub enum KontView {
    Prefix(TokenView),
    InfixRight(TokenView, ExprView, nat),
    InfixApply(TokenView, ValueView),
    Elements(Seq<ValueView>, Seq<ExprView>, nat),
    Callee(TokenView, Seq<ExprView>, nat),
    Arguments(TokenView, ValueView, Seq<ValueView>, Seq<ExprView>, nat),
    CallBoundary(nat),
    IndexRight(TokenView, ExprView, nat),
    IndexApply(TokenView, ValueView),
    Let(TokenView, TokenView, nat),
    Assign(TokenView, nat),
    ReturnWrap,
    Block(BlockView, nat, nat),
    Branch(TokenView, BlockView, Option<BlockView>, nat),
    BranchEnd(nat),
    BlockEnd(nat),
    Program(Seq<StmtView>, nat, nat),
}

/// An action as specifications see it.
pub enum ActionView {
    Continue,
    Float(FloatRequestView),
    Print(Seq<char>, bool),
    Done(ValueView),
    Failed(EvalErrorView),
    Stalled,
}

/// The machine as specifications see it.
pub struct MachineView {
    /// How many scopes there were when the program was started: the scopes
    /// from there on were made by the program.
    pub base: nat,
    pub frames: Seq<FrameView>,
    pub control: ControlView,
    pub stack: Seq<KontView>,
}

/// The machine after a step, and what the step asks for.
pub struct Stepped {
    pub machine: MachineView,
    pub action: ActionView,
}

impl View for Control {
    type V = ControlView;

    open spec fn view(&self) -> ControlView {
        match self {
            Control::Idle => ControlView::Idle,
            Control::Eval(e, scope) => ControlView::Eval(e@, *scope as nat),
            Control::Exec(s, scope) => ControlView::Exec(s@, *scope as nat),
            Control::Return(v) => ControlView::Return(v@),
            Control::Await => ControlView::Await,
        }
    }
}

impl View for Kont {
    type V = KontView;

    open spec fn view(&self) -> KontView {
        match self {
            Kont::Prefix(t) => KontView::Prefix(t@),
            Kont::InfixRight(t, e, scope) => KontView::InfixRight(t@, e@, *scope as nat),
            Kont::InfixApply(t, v) => KontView::InfixApply(t@, v@),
            Kont::Elements(done, all, scope) => KontView::Elements(
                values_view(done@),
                exprs_view(all@),
                *scope as nat,
            ),
            Kont::Callee(t, args, scope) => KontView::Callee(t@, exprs_view(args@), *scope as nat),
            Kont::Arguments(t, callee, done, all, scope) => KontView::Arguments(
                t@,
                callee@,
                values_view(done@),
                exprs_view(all@),
                *scope as nat,
            ),
            Kont::CallBoundary(scope) => KontView::CallBoundary(*scope as nat),
            Kont::IndexRight(t, e, scope) => KontView::IndexRight(t@, e@, *scope as nat),
            Kont::IndexApply(t, v) => KontView::IndexApply(t@, v@),
            Kont::Let(t, name, scope) => KontView::Let(t@, name@, *scope as nat),
            Kont::Assign(name, scope) => KontView::Assign(name@, *scope as nat),
            Kont::ReturnWrap => KontView::ReturnWrap,
            Kont::Block(b, next, scope) => KontView::Block(b@, *next as nat, *scope as nat),
            Kont::Branch(t, a, b, scope) => KontView::Branch(
                t@,
                a@,
                match b {
                    Some(block) => Some(block@),
                    None => None,
                },
                *scope as nat,
            ),
            Kont::BranchEnd(scope) => KontView::BranchEnd(*scope as nat),
            Kont::BlockEnd(scope) => KontView::BlockEnd(*scope as nat),
            Kont::Program(statements, next, scope) => KontView::Program(
                stmts_view(statements@),
                *next as nat,
                *scope as nat,
            ),
        }
    }
}

impl View for Action {
    type V = ActionView;

    open spec fn view(&self) -> ActionView {
        match self {
            Action::Continue => ActionView::Continue,
            Action::Float(r) => ActionView::Float(r@),
            Action::Print(text, newline) => ActionView::Print(text@, *newline),
            Action::Done(v) => ActionView::Done(v@),
            Action::Failed(e) => ActionView::Failed(e@),
            Action::Stalled => ActionView::Stalled,
        }
    }
}

/// The views of a stack.
pub open spec fn stack_view(stack: Seq<Kont>) -> Seq<KontView> {
    Seq::new(stack.len(), |i: int| stack[i]@)
}

/// The names that the parameter tokens spell.
pub open spec fn names_text(params: Seq<TokenView>) -> Seq<Seq<char>> {
    Seq::new(params.len(), |i: int| params[i].text())
}

/// The machine goes on with `control`.
pub open spec fn go(m: MachineView, control: ControlView) -> Stepped {
    Stepped {
        machine: MachineView { base: m.base, frames: m.frames, control, stack: m.stack },
        action: ActionView::Continue,
    }
}

/// The machine puts `k` on the stack and goes on with `control`.
pub open spec fn push_go(m: MachineView, k: KontView, control: ControlView) -> Stepped {
    Stepped {
        machine: MachineView { base: m.base, frames: m.frames, control, stack: m.stack.push(k) },
        action: ActionView::Continue,
    }
}

/// The program fails: the machine drops what was left to do, and with it
/// the scopes that the program made, but for those that are captured and
/// those around them.
pub open spec fn fail(m: MachineView, error: EvalErrorView) -> Stepped {
    Stepped {
        machine: MachineView {
            base: m.base,
            frames: trimmed(m.frames, m.base),
            control: ControlView::Idle,
            stack: Seq::empty(),
        },
        action: ActionView::Failed(error),
    }
}

/// The machine takes the outcome of an operation: it goes on with the
/// value, asks for the floating-point computation and waits, or fails.
pub open spec fn settle(m: MachineView, outcome: OutcomeView) -> Stepped {
    match outcome {
        OutcomeView::Value(v) => go(m, ControlView::Return(v)),
        OutcomeView::Ask(request) => Stepped {
            machine: MachineView { base: m.base, frames: m.frames, control: ControlView::Await, stack: m.stack },
            action: ActionView::Float(request),
        },
        OutcomeView::Error(e) => fail(m, e),
    }
}

/// The value of a literal: that of its token.
pub open spec fn literal_value(t: TokenView) -> ValueView {
    match t.kind {
        TokenKind::Integer(i) => ValueView::Integer(i),
        TokenKind::True => ValueView::Boolean(true),
        TokenKind::False => ValueView::Boolean(false),
        TokenKind::String(s) => ValueView::String(s),
        _ => ValueView::Void,
    }
}

/// The machine starts on a block in the scope: on its first statement, or,
/// if it has none, on handing on `Void`.
pub open spec fn enter_block(m: MachineView, block: BlockView, scope: nat) -> Stepped {
    if block.statements.len() == 0 {
        go(m, ControlView::Return(ValueView::Void))
    } else {
        push_go(
            m,
            KontView::Block(block, 1, scope),
            ControlView::Exec(block.statements[0], scope),
        )
    }
}

/// The frames with the first `n` parameters bound to the first `n`
/// arguments in the scope.
pub open spec fn bind_params(
    frames: Seq<FrameView>,
    scope: nat,
    params: Seq<Seq<char>>,
    args: Seq<ValueView>,
    n: nat,
) -> Seq<FrameView>
    decreases n,
{
    if n == 0 {
        frames
    } else {
        declared(
            bind_params(frames, scope, params, args, (n - 1) as nat),
            scope,
            params[n - 1],
            args[n - 1],
        )
    }
}

/// The call at `token` of `callee` with the arguments `args`. A native
/// function is applied at once. A function is entered: its parameter count
/// has to be the argument count; its body runs in a new scope inside the
/// scope that the function captured, with the parameters bound to the
/// arguments. Anything else is not a function, and neither is a function
/// whose scope the machine does not hold.
pub open spec fn invoke(m: MachineView, token: TokenView, callee: ValueView, args: Seq<ValueView>) -> Stepped {
    match callee {
        ValueView::Builtin(Builtin::Print) => Stepped {
            machine: MachineView {
                base: m.base,
                frames: m.frames,
                control: ControlView::Return(ValueView::Void),
                stack: m.stack,
            },
            action: ActionView::Print(printed(args), false),
        },
        ValueView::Builtin(Builtin::Println) => Stepped {
            machine: MachineView {
                base: m.base,
                frames: m.frames,
                control: ControlView::Return(ValueView::Void),
                stack: m.stack,
            },
            action: ActionView::Print(printed(args), true),
        },
        ValueView::Builtin(Builtin::Len) => settle(m, length_result(args, token.position)),
        ValueView::Function(params, body, captured) => if captured >= m.frames.len() {
            fail(m, EvalError::NotAFunction(token.position))
        } else if params.len() != args.len() {
            fail(
                m,
                EvalError::WrongNumberOfArguments(
                    params.len() as usize,
                    args.len() as usize,
                    token.position,
                ),
            )
        } else {
            let scope = m.frames.len();
            enter_block(
                MachineView {
                    base: m.base,
                    frames: bind_params(
                        nested(m.frames, captured),
                        scope,
                        params,
                        args,
                        params.len(),
                    ),
                    control: m.control,
                    stack: m.stack.push(KontView::CallBoundary(scope)),
                },
                body,
                scope,
            )
        },
        _ => fail(m, EvalError::NotAFunction(token.position)),
    }
}

/// Whether a value can be called.
pub open spec fn callable(v: ValueView) -> bool {
    v is Function || v is Builtin
}

/// What the machine does to evaluate the expression `e` in the scope. A
/// function captures the scope.
pub open spec fn eval_step(m: MachineView, e: ExprView, scope: nat) -> Stepped {
    match e {
        ExprView::Identifier(t) => match lookup(m.frames, scope, t.text()) {
            Some(v) => go(m, ControlView::Return(v)),
            None => fail(m, EvalError::NotDefined(t.text(), t.position)),
        },
        ExprView::Integer(t) => go(m, ControlView::Return(literal_value(t))),
        ExprView::Boolean(t) => go(m, ControlView::Return(literal_value(t))),
        ExprView::StringLiteral(t) => go(m, ControlView::Return(literal_value(t))),
        ExprView::Float(t) => Stepped {
            machine: MachineView { base: m.base, frames: m.frames, control: ControlView::Await, stack: m.stack },
            action: ActionView::Float(FloatRequest::Literal(t.text())),
        },
        ExprView::Array(_, elements) => if elements.len() == 0 {
            go(m, ControlView::Return(ValueView::Array(Seq::empty())))
        } else {
            push_go(
                m,
                KontView::Elements(Seq::empty(), elements, scope),
                ControlView::Eval(elements[0], scope),
            )
        },
        ExprView::Prefixed(op, right) => push_go(
            m,
            KontView::Prefix(op),
            ControlView::Eval(*right, scope),
        ),
        ExprView::Infixed(left, op, right) => push_go(
            m,
            KontView::InfixRight(op, *right, scope),
            ControlView::Eval(*left, scope),
        ),
        ExprView::Function(_, parameters, body) => go(
            MachineView {
                base: m.base,
                frames: captured_at(m.frames, scope),
                control: m.control,
                stack: m.stack,
            },
            ControlView::Return(ValueView::Function(names_text(parameters), body, scope)),
        ),
        ExprView::FunctionCall(t, function, arguments) => push_go(
            m,
            KontView::Callee(t, arguments, scope),
            ControlView::Eval(*function, scope),
        ),
        ExprView::Index(t, of, index) => push_go(
            m,
            KontView::IndexRight(t, *index, scope),
            ControlView::Eval(*of, scope),
        ),
    }
}

/// What the machine does to execute the statement `s` in the scope. A
/// block that stands as a statement runs in a new scope of its own.
pub open spec fn exec_step(m: MachineView, s: StmtView, scope: nat) -> Stepped {
    match s {
        StmtView::Block(b) => enter_block(
            MachineView {
                base: m.base,
                frames: nested(m.frames, scope),
                control: m.control,
                stack: m.stack.push(KontView::BlockEnd(m.frames.len())),
            },
            b,
            m.frames.len(),
        ),
        StmtView::Expression(_, e) => go(m, ControlView::Eval(e, scope)),
        StmtView::Let(t, name, value) => push_go(
            m,
            KontView::Let(t, name, scope),
            ControlView::Eval(value, scope),
        ),
        StmtView::Return(_, value) => push_go(
            m,
            KontView::ReturnWrap,
            ControlView::Eval(value, scope),
        ),
        StmtView::Function(_, name, parameters, body) => go(
            MachineView {
                base: m.base,
                frames: declared(
                    captured_at(m.frames, scope),
                    scope,
                    name.text(),
                    ValueView::Function(names_text(parameters), body, scope),
                ),
                control: m.control,
                stack: m.stack,
            },
            ControlView::Return(ValueView::Void),
        ),
        StmtView::Condition(t, condition, if_true, if_false) => push_go(
            m,
            KontView::Branch(t, if_true, if_false, scope),
            ControlView::Eval(condition, scope),
        ),
        StmtView::Assign(name, value) => push_go(
            m,
            KontView::Assign(name, scope),
            ControlView::Eval(value, scope),
        ),
    }
}

/// What the machine does when the value `v` arrives for `k`, which was on
/// top of the stack and is no longer on it. Where a call, a branch or a
/// block ends, the scope that was made for it is released.
pub open spec fn return_step(m: MachineView, k: KontView, v: ValueView) -> Stepped {
    match k {
        KontView::Prefix(op) => settle(m, prefix_result(op, v)),
        KontView::InfixRight(op, right, scope) => push_go(
            m,
            KontView::InfixApply(op, v),
            ControlView::Eval(right, scope),
        ),
        KontView::InfixApply(op, left) => settle(m, infix_result(op, left, v)),
        KontView::Elements(done, all, scope) => if done.len() + 1 < all.len() {
            push_go(
                m,
                KontView::Elements(done.push(v), all, scope),
                ControlView::Eval(all[done.len() as int + 1], scope),
            )
        } else {
            go(m, ControlView::Return(ValueView::Array(done.push(v))))
        },
        KontView::Callee(t, arguments, scope) => if !callable(v) {
            fail(m, EvalError::NotAFunction(t.position))
        } else if arguments.len() == 0 {
            invoke(m, t, v, Seq::empty())
        } else {
            push_go(
                m,
                KontView::Arguments(t, v, Seq::empty(), arguments, scope),
                ControlView::Eval(arguments[0], scope),
            )
        },
        KontView::Arguments(t, callee, done, all, scope) => if v is Void {
            fail(m, EvalError::VoidValueAsArgument(t.position))
        } else if done.len() + 1 < all.len() {
            push_go(
                m,
                KontView::Arguments(t, callee, done.push(v), all, scope),
                ControlView::Eval(all[done.len() as int + 1], scope),
            )
        } else {
            invoke(m, t, callee, done.push(v))
        },
        KontView::CallBoundary(scope) => go(
            MachineView {
                base: m.base,
                frames: released(m.frames, scope),
                control: m.control,
                stack: m.stack,
            },
            ControlView::Return(unwrapped(v)),
        ),
        KontView::IndexRight(t, index, scope) => push_go(
            m,
            KontView::IndexApply(t, v),
            ControlView::Eval(index, scope),
        ),
        KontView::IndexApply(t, of) => settle(m, index_result(t, of, v)),
        KontView::Let(t, name, scope) => if v is Void {
            fail(m, EvalError::TriedToStoreVoid(t.position))
        } else {
            go(
                MachineView {
                    base: m.base,
                    frames: declared(m.frames, scope, name.text(), v),
                    control: m.control,
                    stack: m.stack,
                },
                ControlView::Return(ValueView::Void),
            )
        },
        KontView::Assign(name, scope) => if v is Void {
            fail(m, EvalError::TriedToStoreVoid(name.position))
        } else if owner(m.frames, scope, name.text()) is None {
            fail(m, EvalError::NotDefined(name.text(), name.position))
        } else {
            go(
                MachineView {
                    base: m.base,
                    frames: assigned(m.frames, scope, name.text(), v),
                    control: m.control,
                    stack: m.stack,
                },
                ControlView::Return(ValueView::Void),
            )
        },
        KontView::ReturnWrap => go(m, ControlView::Return(ValueView::Returned(Box::new(v)))),
        KontView::Block(block, next, scope) => if v is Returned || next >= block.statements.len() {
            go(m, ControlView::Return(v))
        } else {
            push_go(
                m,
                KontView::Block(block, next + 1, scope),
                ControlView::Exec(block.statements[next as int], scope),
            )
        },
        KontView::Branch(t, if_true, if_false, scope) => match v {
            ValueView::Boolean(true) => enter_block(
                MachineView {
                    base: m.base,
                    frames: nested(m.frames, scope),
                    control: m.control,
                    stack: m.stack.push(KontView::BranchEnd(m.frames.len())),
                },
                if_true,
                m.frames.len(),
            ),
            ValueView::Boolean(false) => match if_false {
                Some(block) => enter_block(
                    MachineView {
                        base: m.base,
                        frames: nested(m.frames, scope),
                        control: m.control,
                        stack: m.stack.push(KontView::BranchEnd(m.frames.len())),
                    },
                    block,
                    m.frames.len(),
                ),
                None => go(m, ControlView::Return(ValueView::Void)),
            },
            _ => fail(m, EvalError::NonBooleanCondition(display(v), t.position)),
        },
        KontView::BranchEnd(scope) => go(
            MachineView {
                base: m.base,
                frames: released(m.frames, scope),
                control: m.control,
                stack: m.stack,
            },
            ControlView::Return(
                if v is Returned {
                    v
                } else {
                    ValueView::Void
                },
            ),
        ),
        KontView::BlockEnd(scope) => go(
            MachineView {
                base: m.base,
                frames: released(m.frames, scope),
                control: m.control,
                stack: m.stack,
            },
            ControlView::Return(v),
        ),
        KontView::Program(statements, next, scope) => if next >= statements.len() {
            go(m, ControlView::Return(v))
        } else {
            push_go(
                m,
                KontView::Program(statements, next + 1, scope),
                ControlView::Exec(statements[next as int], scope),
            )
        },
    }
}

/// One step of the machine.
pub open spec fn step(m: MachineView) -> Stepped {
    match m.control {
        ControlView::Idle => Stepped { machine: m, action: ActionView::Stalled },
        ControlView::Await => Stepped { machine: m, action: ActionView::Stalled },
        ControlView::Eval(e, scope) => eval_step(m, e, scope),
        ControlView::Exec(s, scope) => exec_step(m, s, scope),
        ControlView::Return(v) => if m.stack.len() == 0 {
            Stepped {
                machine: MachineView {
                    base: m.base,
                    frames: m.frames,
                    control: ControlView::Idle,
                    stack: m.stack,
                },
                action: ActionView::Done(v),
            }
        } else {
            return_step(
                MachineView { base: m.base, frames: m.frames, control: m.control, stack: m.stack.drop_last() },
                m.stack.last(),
                v,
            )
        },
    }
}

/// The machine with the answer `reply` to its request, a float or a
/// boolean: it hands the answer on. A machine that does not wait ignores
/// the answer, and so does any machine a value of another kind.
pub open spec fn resumed(m: MachineView, reply: ValueView) -> MachineView {
    if m.control is Await && (reply is Float || reply is Boolean) {
        MachineView { base: m.base, frames: m.frames, control: ControlView::Return(reply), stack: m.stack }
    } else {
        m
    }
}

/// The machine about to run the statements in the scope: whatever it was
/// doing is dropped, the scopes stay.
pub open spec fn started(m: MachineView, statements: Seq<StmtView>, scope: nat) -> MachineView {
    MachineView {
        base: m.frames.len(),
        frames: m.frames,
        control: ControlView::Return(ValueView::Void),
        stack: seq![KontView::Program(statements, 0, scope)],
    }
}

/// The scope that a piece of pending work names, if it names one.
pub open spec fn kont_scope(k: KontView) -> Option<nat> {
    match k {
        KontView::InfixRight(_, _, scope) => Some(scope),
        KontView::Elements(_, _, scope) => Some(scope),
        KontView::Callee(_, _, scope) => Some(scope),
        KontView::Arguments(_, _, _, _, scope) => Some(scope),
        KontView::IndexRight(_, _, scope) => Some(scope),
        KontView::Let(_, _, scope) => Some(scope),
        KontView::Assign(_, scope) => Some(scope),
        KontView::Block(_, _, scope) => Some(scope),
        KontView::Branch(_, _, _, scope) => Some(scope),
        KontView::Program(_, _, scope) => Some(scope),
        KontView::CallBoundary(scope) => Some(scope),
        KontView::BranchEnd(scope) => Some(scope),
        KontView::BlockEnd(scope) => Some(scope),
        _ => None,
    }
}

/// The scope that a piece of pending work releases, if it releases one.
pub open spec fn kont_releases(k: KontView) -> Option<nat> {
    match k {
        KontView::CallBoundary(scope) => Some(scope),
        KontView::BranchEnd(scope) => Some(scope),
        KontView::BlockEnd(scope) => Some(scope),
        _ => None,
    }
}

/// Every scope that the pending work names was made before the scope
/// `scope`.
pub open spec fn beneath(stack: Seq<KontView>, scope: nat) -> bool {
    forall|i: int|
        0 <= i < stack.len() ==> match kont_scope(#[trigger] stack[i]) {
            Some(s) => s < scope,
            None => true,
        }
}

/// The scope that the machine is about to work in, if any.
pub open spec fn control_scope(c: ControlView) -> Option<nat> {
    match c {
        ControlView::Eval(_, scope) => Some(scope),
        ControlView::Exec(_, scope) => Some(scope),
        _ => None,
    }
}

/// The values that a piece of pending work holds pin their scopes.
pub open spec fn kont_pins(k: KontView, frames: Seq<FrameView>) -> bool {
    match k {
        KontView::InfixApply(_, v) => pins(v, frames),
        KontView::IndexApply(_, v) => pins(v, frames),
        KontView::Elements(done, _, _) => all_pin(done, frames),
        KontView::Arguments(_, callee, done, _, _) => pins(callee, frames) && all_pin(
            done,
            frames,
        ),
        _ => true,
    }
}

/// The value that the machine is about to hand on pins its scopes.
pub open spec fn control_pins(c: ControlView, frames: Seq<FrameView>) -> bool {
    match c {
        ControlView::Return(v) => pins(v, frames),
        _ => true,
    }
}

/// The values that the pending work holds pin their scopes.
pub open spec fn stack_pins(stack: Seq<KontView>, frames: Seq<FrameView>) -> bool {
    forall|i: int| 0 <= i < stack.len() ==> kont_pins(#[trigger] stack[i], frames)
}

/// The machine's state is consistent: the scopes form a tree; every scope
/// that the machine names is one of them; the scope that a piece of
/// pending work is to release was made by the program, after every scope
/// that is named by the work that is pending beneath it; and every function
/// that the machine holds, bound or on its way, names a scope that exists
/// and is marked as captured, so that it is never released.
pub open spec fn machine_ok(m: MachineView) -> bool {
    &&& stack_ok(m)
    &&& match control_scope(m.control) {
        Some(scope) => scope < m.frames.len(),
        None => true,
    }
    &&& control_pins(m.control, m.frames)
}

/// The machine's state is consistent, whatever it is about to do.
pub open spec fn stack_ok(m: MachineView) -> bool {
    &&& frames_ok(m.frames)
    &&& 1 <= m.base <= m.frames.len()
    &&& beneath(m.stack, m.frames.len())
    &&& forall|j: int|
        0 <= j < m.stack.len() ==> match kont_releases(#[trigger] m.stack[j]) {
            Some(scope) => m.base <= scope && beneath(m.stack.take(j), scope),
            None => true,
        }
    &&& frames_pin(m.frames)
    &&& stack_pins(m.stack, m.frames)
}

/// The values that a piece of pending work holds go on pinning their
/// scopes when the frames grow.
pub proof fn lemma_kont_pins_when_grown(k: KontView, earlier: Seq<FrameView>, later: Seq<FrameView>)
    requires
        kont_pins(k, earlier),
        grows(earlier, later),
    ensures
        kont_pins(k, later),
{
    match k {
        KontView::InfixApply(_, v) => {
            lemma_pins_when_grown(v, earlier, later);
        },
        KontView::IndexApply(_, v) => {
            lemma_pins_when_grown(v, earlier, later);
        },
        KontView::Elements(done, _, _) => {
            assert forall|i: int| 0 <= i < done.len() implies pins(#[trigger] done[i], later) by {
                lemma_pins_when_grown(done[i], earlier, later);
            }
        },
        KontView::Arguments(_, callee, done, _, _) => {
            lemma_pins_when_grown(callee, earlier, later);
            assert forall|i: int| 0 <= i < done.len() implies pins(#[trigger] done[i], later) by {
                lemma_pins_when_grown(done[i], earlier, later);
            }
        },
        _ => {},
    }
}

/// The values that the pending work holds go on pinning their scopes when
/// the frames grow.
pub proof fn lemma_stack_pins_when_grown(
    stack: Seq<KontView>,
    earlier: Seq<FrameView>,
    later: Seq<FrameView>,
)
    requires
        stack_pins(stack, earlier),
        grows(earlier, later),
    ensures
        stack_pins(stack, later),
{
    assert forall|i: int| 0 <= i < stack.len() implies kont_pins(#[trigger] stack[i], later) by {
        lemma_kont_pins_when_grown(stack[i], earlier, later);
    }
}

/// The values that the pending work holds go on pinning their scopes when
/// a scope is released.
pub proof fn lemma_stack_pins_after_release(
    stack: Seq<KontView>,
    frames: Seq<FrameView>,
    scope: nat,
)
    requires
        stack_pins(stack, frames),
    ensures
        stack_pins(stack, released(frames, scope)),
{
    let later = released(frames, scope);
    assert forall|i: int| 0 <= i < stack.len() implies kont_pins(#[trigger] stack[i], later) by {
        match stack[i] {
            KontView::InfixApply(_, v) => {
                lemma_pins_after_release(v, frames, scope);
            },
            KontView::IndexApply(_, v) => {
                lemma_pins_after_release(v, frames, scope);
            },
            KontView::Elements(done, _, _) => {
                assert forall|j: int| 0 <= j < done.len() implies pins(
                    #[trigger] done[j],
                    later,
                ) by {
                    lemma_pins_after_release(done[j], frames, scope);
                }
            },
            KontView::Arguments(_, callee, done, _, _) => {
                lemma_pins_after_release(callee, frames, scope);
                assert forall|j: int| 0 <= j < done.len() implies pins(
                    #[trigger] done[j],
                    later,
                ) by {
                    lemma_pins_after_release(done[j], frames, scope);
                }
            },
            _ => {},
        }
    }
}

/// Trimming keeps the scopes a tree, and keeps the scopes that were there
/// before the program was started.
pub proof fn lemma_trimmed(frames: Seq<FrameView>, base: nat)
    requires
        frames_ok(frames),
        1 <= base <= frames.len(),
    ensures
        frames_ok(trimmed(frames, base)),
        base <= trimmed(frames, base).len() <= frames.len(),
    decreases frames.len(),
{
    if frames.len() > base && frames.len() > 1 && !frames.last().captured {
        lemma_trimmed(frames.drop_last(), base);
    }
}

/// An assignment changes no frame's place: the frames are as many as
/// before, and they are a tree as before.
pub proof fn lemma_assigned_len(frames: Seq<FrameView>, scope: nat, name: Seq<char>, value: ValueView)
    ensures
        assigned(frames, scope, name, value).len() == frames.len(),
        frames_ok(frames) ==> frames_ok(assigned(frames, scope, name, value)),
{
    lemma_owner(frames, scope, name);
}

/// The evaluator.
#[derive(Debug)]
pub struct Machine {
    base: usize,
    env: ExecutionEnvironment,
    control: Control,
    stack: Vec<Kont>,
}

impl View for Machine {
    type V = MachineView;

    closed spec fn view(&self) -> MachineView {
        MachineView { base: self.base as nat, frames: self.env@, control: self.control@, stack: stack_view(self.stack@) }
    }
}

/// The names that the parameters spell.
fn param_names(params: &Vec<Identifier>) -> (r: Vec<String>)
    ensures
        strings_view(r@) == names_text(names_view(params@)),
{
    let mut out: Vec<String> = Vec::new();
    let mut i: usize = 0;
    while i < params.len()
        invariant
            i <= params.len(),
            out.len() == i,
            forall|j: int| 0 <= j < i ==> out@[j]@ == params@[j].token@.text(),
        decreases params.len() - i,
    {
        out.push(params[i].token.literal());
        i += 1;
    }
    assert(strings_view(out@) =~= names_text(names_view(params@)));
    out
}

/// The value of a literal token.
fn literal_of(token: &Token) -> (r: Rc<Value>)
    ensures
        r@ == literal_value(token@),
{
    match &token.kind {
        TokenKind::Integer(i) => Value::new_integer(*i),
        TokenKind::True => Value::from_native_bool(true),
        TokenKind::False => Value::from_native_bool(false),
        TokenKind::String(s) => Value::new_string(s.clone()),
        _ => Value::new_void(),
    }
}

impl Machine {
    /// The machine's state is consistent.
    pub open spec fn wf(&self) -> bool {
        machine_ok(self@)
    }

    /// A machine that runs nothing, with the global scope alone, in which
    /// the native functions are bound.
    pub fn new() -> (r: Self)
        ensures
            r.wf(),
            r@.control is Idle,
            r@.stack.len() == 0,
            r@.frames.len() == 1,
            r@.frames[0].vars == crate::env::builtins(),
            r@.frames[0].parent is None,
    {
        let env = ExecutionEnvironment::new_global();
        assert(frames_pin(env@)) by {
            assert forall|i: int, name: Seq<char>|
                0 <= i < env@.len() && env@[i].vars.contains_key(name) implies pins(
                #[trigger] env@[i].vars[name],
                env@,
            ) by {}
        }
        Machine { base: 1, env, control: Control::Idle, stack: Vec::new() }
    }

    /// The scopes.
    pub fn environment(&self) -> (r: &ExecutionEnvironment)
        ensures
            r@ == self@.frames,
    {
        &self.env
    }

    /// Whether the machine waits for the answer to a request.
    pub fn is_waiting(&self) -> (r: bool)
        ensures
            r == (self@.control is Await),
    {
        matches!(self.control, Control::Await)
    }

    /// Whether no program is running.
    pub fn is_idle(&self) -> (r: bool)
        ensures
            r == (self@.control is Idle),
    {
        matches!(self.control, Control::Idle)
    }

    /// A machine that runs nothing, over the scopes `env`. Every function
    /// that is bound in them has to name a scope of them that is marked as
    /// captured.
    pub fn from_environment(env: ExecutionEnvironment) -> (r: Self)
        requires
            env.wf(),
            frames_pin(env@),
        ensures
            r.wf(),
            r@.control is Idle,
            r@.stack.len() == 0,
            r@.frames == env@,
    {
        Machine { base: env.len(), env, control: Control::Idle, stack: Vec::new() }
    }

    /// Sets the machine to run `program` in the global scope. Whatever it
    /// was doing is dropped; the scopes stay as they are.
    pub fn start(&mut self, program: Program)
        requires
            old(self).wf(),
            crate::ast::stmts_ok(program@),
        ensures
            final(self).wf(),
            final(self)@ == started(old(self)@, program@, 0),
    {
        self.start_in(program, 0)
    }

    /// Sets the machine to run `program` in the scope `scope`. Whatever it
    /// was doing is dropped; the scopes stay as they are.
    pub fn start_in(&mut self, program: Program, scope: usize)
        requires
            old(self).wf(),
            crate::ast::stmts_ok(program@),
            scope < old(self)@.frames.len(),
        ensures
            final(self).wf(),
            final(self)@ == started(old(self)@, program@, scope as nat),
    {
        self.base = self.env.len();
        self.control = Control::Return(Value::new_void());
        let mut stack: Vec<Kont> = Vec::new();
        stack.push(Kont::Program(program.statements, 0, scope));
        self.stack = stack;
        assert(self@.stack =~= seq![KontView::Program(program@, 0, scope as nat)]);
        assert(self@.stack.take(0) =~= Seq::<KontView>::empty());
    }

    /// Hands the machine the answer to its request, a float or a boolean.
    /// A machine that does not wait ignores it, and so does any machine a
    /// value of another kind.
    pub fn resume(&mut self, reply: Rc<Value>)
        requires
            old(self).wf(),
        ensures
            final(self).wf(),
            final(self)@ == resumed(old(self)@, reply@),
    {
        let accepted = match &*reply {
            Value::Float(_) => true,
            Value::Boolean(_) => true,
            _ => false,
        };
        if accepted && matches!(self.control, Control::Await) {
            self.control = Control::Return(reply);
        }
    }

    fn go(&mut self, control: Control) -> (r: Action)
        requires
            stack_ok(old(self)@),
            match control_scope(control@) {
                Some(scope) => scope < old(self)@.frames.len(),
                None => true,
            },
            control_pins(control@, old(self)@.frames),
        ensures
            final(self).wf(),
            final(self)@ == go(old(self)@, control@).machine,
            r@ == go(old(self)@, control@).action,
    {
        self.control = control;
        Action::Continue
    }

    fn push_go(&mut self, k: Kont, control: Control) -> (r: Action)
        requires
            stack_ok(old(self)@),
            match control_scope(control@) {
                Some(scope) => scope < old(self)@.frames.len(),
                None => true,
            },
            match kont_scope(k@) {
                Some(scope) => scope < old(self)@.frames.len(),
                None => true,
            },
            kont_releases(k@) is None,
            control_pins(control@, old(self)@.frames),
            kont_pins(k@, old(self)@.frames),
        ensures
            final(self).wf(),
            final(self)@ == push_go(old(self)@, k@, control@).machine,
            r@ == push_go(old(self)@, k@, control@).action,
    {
        self.control = control;
        self.push(k);
        Action::Continue
    }

    /// Puts `k` on the stack.
    fn push(&mut self, k: Kont)
        requires
            stack_ok(old(self)@),
            match kont_scope(k@) {
                Some(scope) => scope < old(self)@.frames.len(),
                None => true,
            },
            match kont_releases(k@) {
                Some(scope) => old(self)@.base <= scope && beneath(old(self)@.stack, scope),
                None => true,
            },
            kont_pins(k@, old(self)@.frames),
        ensures
            stack_ok(final(self)@),
            final(self)@.stack == old(self)@.stack.push(k@),
            final(self)@.frames == old(self)@.frames,
            final(self)@.base == old(self)@.base,
            final(self)@.control == old(self)@.control,
    {
        let ghost before = self@.stack;
        self.stack.push(k);
        let ghost after = self@.stack;
        assert(after =~= before.push(k@));
        assert forall|j: int| 0 <= j < after.len() implies match kont_releases(
            #[trigger] after[j],
        ) {
            Some(scope) => self@.base <= scope && beneath(after.take(j), scope),
            None => true,
        } by {
            if j < before.len() {
                assert(after[j] == before[j]);
                assert(after.take(j) =~= before.take(j));
            } else {
                assert(after.take(j) =~= before);
            }
        }
    }

    fn fail(&mut self, error: EvalError) -> (r: Action)
        requires
            stack_ok(old(self)@),
        ensures
            final(self).wf(),
            final(self)@ == fail(old(self)@, error@).machine,
            r@ == fail(old(self)@, error@).action,
    {
        self.control = Control::Idle;
        self.stack = Vec::new();
        proof {
            lemma_trimmed(self@.frames, self@.base);
            lemma_trimmed_pins(self@.frames, self@.base);
        }
        self.env.trim(self.base);
        assert(self@.stack =~= Seq::<KontView>::empty());
        Action::Failed(error)
    }

    fn settle(&mut self, outcome: Outcome) -> (r: Action)
        requires
            stack_ok(old(self)@),
            outcome_pins(outcome@, old(self)@.frames),
        ensures
            final(self).wf(),
            final(self)@ == settle(old(self)@, outcome@).machine,
            r@ == settle(old(self)@, outcome@).action,
    {
        match outcome {
            Outcome::Value(v) => self.go(Control::Return(v)),
            Outcome::Ask(request) => {
                self.control = Control::Await;
                Action::Float(request)
            },
            Outcome::Error(e) => self.fail(e),
        }
    }

    fn enter_block(&mut self, block: Rc<Block>, scope: usize) -> (r: Action)
        requires
            stack_ok(old(self)@),
            scope < old(self)@.frames.len(),
        ensures
            final(self).wf(),
            final(self)@ == enter_block(old(self)@, block@, scope as nat).machine,
            r@ == enter_block(old(self)@, block@, scope as nat).action,
    {
        assert(block@.statements.len() == block.statements@.len());
        if block.statements.len() == 0 {
            self.go(Control::Return(Value::new_void()))
        } else {
            let first = block.statements[0].dup();
            assert(block@.statements[0] == block.statements@[0]@);
            self.push_go(Kont::Block(block, 1, scope), Control::Exec(first, scope))
        }
    }

    fn invoke(&mut self, token: Token, callee: Rc<Value>, args: Vec<Rc<Value>>) -> (r: Action)
        requires
            stack_ok(old(self)@),
            pins(callee@, old(self)@.frames),
            all_pin(values_view(args@), old(self)@.frames),
        ensures
            final(self).wf(),
            final(self)@ == invoke(old(self)@, token@, callee@, values_view(args@)).machine,
            r@ == invoke(old(self)@, token@, callee@, values_view(args@)).action,
    {
        assert(values_view(args@).len() == args@.len());
        match &*callee {
            Value::Builtin(Builtin::Print) => {
                let text = print_text(&args);
                self.control = Control::Return(Value::new_void());
                Action::Print(text, false)
            },
            Value::Builtin(Builtin::Println) => {
                let text = print_text(&args);
                self.control = Control::Return(Value::new_void());
                Action::Print(text, true)
            },
            Value::Builtin(Builtin::Len) => {
                let outcome = length(&args, token.position);
                proof {
                    lemma_length_pins(values_view(args@), token.position, self@.frames);
                }
                self.settle(outcome)
            },
            Value::Function(f) => {
                assert(strings_view(f.params@).len() == f.params@.len());
                if f.captured_env >= self.env.len() {
                    return self.fail(EvalError::NotAFunction(token.position));
                }
                if f.params.len() != args.len() {
                    return self.fail(
                        EvalError::WrongNumberOfArguments(
                            f.params.len(),
                            args.len(),
                            token.position,
                        ),
                    );
                }
                let ghost before = self@;
                let ghost params = strings_view(f.params@);
                let ghost values = values_view(args@);
                let scope = self.nest(f.captured_env);
                proof {
                    assert forall|j: int| 0 <= j < values.len() implies pins(
                        #[trigger] values[j],
                        self@.frames,
                    ) by {
                        lemma_pins_when_grown(values[j], before.frames, self@.frames);
                    }
                }
                let mut i: usize = 0;
                while i < f.params.len()
                    invariant
                        i <= f.params.len(),
                        f.params.len() == args.len(),
                        params == strings_view(f.params@),
                        values == values_view(args@),
                        stack_ok(self@),
                        all_pin(values, self@.frames),
                        scope == before.frames.len(),
                        self.env@.len() == before.frames.len() + 1,
                        self.env@ == bind_params(
                            nested(before.frames, f.captured_env as nat),
                            scope as nat,
                            params,
                            values,
                            i as nat,
                        ),
                        self@.control == before.control,
                        self@.stack == before.stack,
                        self@.base == before.base,
                    decreases f.params.len() - i,
                {
                    let ghost frames = self.env@;
                    assert(params[i as int] == f.params@[i as int]@);
                    assert(values[i as int] == args@[i as int]@);
                    self.declare(scope, f.params[i].clone(), share(&args[i]));
                    proof {
                        assert forall|j: int| 0 <= j < values.len() implies pins(
                            #[trigger] values[j],
                            self@.frames,
                        ) by {
                            lemma_pins_when_grown(values[j], frames, self@.frames);
                        }
                    }
                    i += 1;
                }
                self.push(Kont::CallBoundary(scope));
                self.enter_block(share(&f.body), scope)
            },
            _ => self.fail(EvalError::NotAFunction(token.position)),
        }
    }

    fn eval_step(&mut self, e: Expression, scope: usize) -> (r: Action)
        requires
            stack_ok(old(self)@),
            scope < old(self)@.frames.len(),
        ensures
            final(self).wf(),
            final(self)@ == eval_step(old(self)@, e@, scope as nat).machine,
            r@ == eval_step(old(self)@, e@, scope as nat).action,
    {
        match e {
            Expression::Identifier(n) => {
                let name = n.token.literal();
                proof {
                    lemma_lookup_pins(self@.frames, scope as nat, name@);
                }
                match self.env.get(scope, name.as_str()) {
                    Some(v) => self.go(Control::Return(v)),
                    None => self.fail(EvalError::NotDefined(name, n.token.position)),
                }
            },
            Expression::Integer(n) => self.go(Control::Return(literal_of(&n.token))),
            Expression::Boolean(n) => self.go(Control::Return(literal_of(&n.token))),
            Expression::StringLiteral(n) => self.go(Control::Return(literal_of(&n.token))),
            Expression::Float(n) => {
                self.control = Control::Await;
                Action::Float(FloatRequest::Literal(n.token.literal()))
            },
            Expression::Array(n) => {
                assert(exprs_view(n.elements@).len() == n.elements@.len());
                if n.elements.len() == 0 {
                    let empty: Vec<Rc<Value>> = Vec::new();
                    assert(values_view(empty@) =~= Seq::<ValueView>::empty());
                    self.go(Control::Return(Value::new_array(empty)))
                } else {
                    let first = n.elements[0].dup();
                    assert(exprs_view(n.elements@)[0] == n.elements@[0]@);
                    let done: Vec<Rc<Value>> = Vec::new();
                    assert(values_view(done@) =~= Seq::<ValueView>::empty());
                    self.push_go(
                        Kont::Elements(done, n.elements, scope),
                        Control::Eval(first, scope),
                    )
                }
            },
            Expression::Prefixed(n) => self.push_go(
                Kont::Prefix(n.op),
                Control::Eval(*n.right, scope),
            ),
            Expression::Infixed(n) => self.push_go(
                Kont::InfixRight(n.op, *n.right, scope),
                Control::Eval(*n.left, scope),
            ),
            Expression::Function(n) => {
                let names = param_names(&n.parameters);
                self.capture(scope);
                self.go(Control::Return(Value::new_function(names, n.body, scope)))
            },
            Expression::FunctionCall(n) => self.push_go(
                Kont::Callee(n.token, n.arguments, scope),
                Control::Eval(*n.function, scope),
            ),
            Expression::Index(n) => self.push_go(
                Kont::IndexRight(n.token, *n.index, scope),
                Control::Eval(*n.of, scope),
            ),
        }
    }

    fn exec_step(&mut self, s: Statement, scope: usize) -> (r: Action)
        requires
            stack_ok(old(self)@),
            scope < old(self)@.frames.len(),
        ensures
            final(self).wf(),
            final(self)@ == exec_step(old(self)@, s@, scope as nat).machine,
            r@ == exec_step(old(self)@, s@, scope as nat).action,
    {
        match s {
            Statement::Block(b) => {
                let inner = self.nest(scope);
                self.push(Kont::BlockEnd(inner));
                self.enter_block(Rc::new(b), inner)
            },
            Statement::ExpressionStatement(n) => self.go(Control::Eval(*n.expression, scope)),
            Statement::LetStatement(n) => self.push_go(
                Kont::Let(n.token, n.identifier.token, scope),
                Control::Eval(*n.value, scope),
            ),
            Statement::ReturnStatement(n) => self.push_go(
                Kont::ReturnWrap,
                Control::Eval(*n.value, scope),
            ),
            Statement::FunctionDeclaration(n) => {
                let names = param_names(&n.parameters);
                let function = Value::new_function(names, n.body, scope);
                self.capture(scope);
                self.declare(scope, n.identifier.token.literal(), function);
                self.go(Control::Return(Value::new_void()))
            },
            Statement::Condition(n) => self.push_go(
                Kont::Branch(n.token, n.if_true, n.if_false, scope),
                Control::Eval(*n.condition, scope),
            ),
            Statement::Assign(n) => self.push_go(
                Kont::Assign(n.identifier.token, scope),
                Control::Eval(*n.value, scope),
            ),
        }
    }

    /// Releases the scope that was made for what has ended.
    fn release(&mut self, scope: usize)
        requires
            stack_ok(old(self)@),
            old(self)@.base <= scope < old(self)@.frames.len(),
            beneath(old(self)@.stack, scope as nat),
        ensures
            stack_ok(final(self)@),
            final(self)@.frames == released(old(self)@.frames, scope as nat),
            final(self)@.stack == old(self)@.stack,
            final(self)@.base == old(self)@.base,
            final(self)@.control == old(self)@.control,
    {
        proof {
            lemma_released_pins(self@.frames, scope as nat);
            lemma_stack_pins_after_release(self@.stack, self@.frames, scope as nat);
        }
        self.env.release(scope);
    }

    /// Makes a new scope inside the scope `parent`.
    fn nest(&mut self, parent: usize) -> (r: usize)
        requires
            stack_ok(old(self)@),
            parent < old(self)@.frames.len(),
        ensures
            stack_ok(final(self)@),
            r == old(self)@.frames.len(),
            final(self)@.frames == nested(old(self)@.frames, parent as nat),
            grows(old(self)@.frames, final(self)@.frames),
            final(self)@.stack == old(self)@.stack,
            final(self)@.base == old(self)@.base,
            final(self)@.control == old(self)@.control,
    {
        proof {
            lemma_nested_pins(self@.frames, parent as nat);
            lemma_stack_pins_when_grown(
                self@.stack,
                self@.frames,
                nested(self@.frames, parent as nat),
            );
        }
        self.env.new_local(parent)
    }

    /// Marks the scope `scope` as captured.
    fn capture(&mut self, scope: usize)
        requires
            stack_ok(old(self)@),
            scope < old(self)@.frames.len(),
        ensures
            stack_ok(final(self)@),
            final(self)@.frames == captured_at(old(self)@.frames, scope as nat),
            grows(old(self)@.frames, final(self)@.frames),
            final(self)@.stack == old(self)@.stack,
            final(self)@.base == old(self)@.base,
            final(self)@.control == old(self)@.control,
    {
        proof {
            lemma_captured_pins(self@.frames, scope as nat);
            lemma_stack_pins_when_grown(
                self@.stack,
                self@.frames,
                captured_at(self@.frames, scope as nat),
            );
        }
        self.env.capture(scope);
    }

    /// Declares `name` as `value` in the scope `scope`.
    fn declare(&mut self, scope: usize, name: String, value: Rc<Value>)
        requires
            stack_ok(old(self)@),
            scope < old(self)@.frames.len(),
            pins(value@, old(self)@.frames),
        ensures
            stack_ok(final(self)@),
            final(self)@.frames == declared(old(self)@.frames, scope as nat, name@, value@),
            grows(old(self)@.frames, final(self)@.frames),
            final(self)@.frames.len() == old(self)@.frames.len(),
            final(self)@.stack == old(self)@.stack,
            final(self)@.base == old(self)@.base,
            final(self)@.control == old(self)@.control,
    {
        proof {
            lemma_declared_pins(self@.frames, scope as nat, name@, value@);
            lemma_stack_pins_when_grown(
                self@.stack,
                self@.frames,
                declared(self@.frames, scope as nat, name@, value@),
            );
        }
        self.env.set(scope, name, value);
    }

    fn on_element(
        &mut self,
        done: Vec<Rc<Value>>,
        all: Vec<Box<Expression>>,
        scope: usize,
        v: Rc<Value>,
    ) -> (r: Action)
        requires
            stack_ok(old(self)@),
            scope < old(self)@.frames.len(),
            pins(v@, old(self)@.frames),
            all_pin(values_view(done@), old(self)@.frames),
        ensures
            final(self).wf(),
            final(self)@ == return_step(
                old(self)@,
                KontView::Elements(values_view(done@), exprs_view(all@), scope as nat),
                v@,
            ).machine,
            r@ == return_step(
                old(self)@,
                KontView::Elements(values_view(done@), exprs_view(all@), scope as nat),
                v@,
            ).action,
    {
        let mut done = done;
        let ghost before = values_view(done@);
        assert(before.len() == done@.len());
        assert(exprs_view(all@).len() == all@.len());
        done.push(v);
        assert(values_view(done@) =~= before.push(v@));
        if done.len() < all.len() {
            let next = all[done.len()].dup();
            assert(exprs_view(all@)[done.len() as int] == all@[done.len() as int]@);
            self.push_go(Kont::Elements(done, all, scope), Control::Eval(next, scope))
        } else {
            self.go(Control::Return(Value::new_array(done)))
        }
    }

    fn on_callee(
        &mut self,
        token: Token,
        arguments: Vec<Box<Expression>>,
        scope: usize,
        v: Rc<Value>,
    ) -> (r: Action)
        requires
            stack_ok(old(self)@),
            scope < old(self)@.frames.len(),
            pins(v@, old(self)@.frames),
        ensures
            final(self).wf(),
            final(self)@ == return_step(
                old(self)@,
                KontView::Callee(token@, exprs_view(arguments@), scope as nat),
                v@,
            ).machine,
            r@ == return_step(
                old(self)@,
                KontView::Callee(token@, exprs_view(arguments@), scope as nat),
                v@,
            ).action,
    {
        assert(exprs_view(arguments@).len() == arguments@.len());
        let can_call = match &*v {
            Value::Function(_) => true,
            Value::Builtin(_) => true,
            _ => false,
        };
        if !can_call {
            self.fail(EvalError::NotAFunction(token.position))
        } else if arguments.len() == 0 {
            let none: Vec<Rc<Value>> = Vec::new();
            assert(values_view(none@) =~= Seq::<ValueView>::empty());
            self.invoke(token, v, none)
        } else {
            let first = arguments[0].dup();
            assert(exprs_view(arguments@)[0] == arguments@[0]@);
            let done: Vec<Rc<Value>> = Vec::new();
            assert(values_view(done@) =~= Seq::<ValueView>::empty());
            self.push_go(
                Kont::Arguments(token, v, done, arguments, scope),
                Control::Eval(first, scope),
            )
        }
    }

    fn on_argument(
        &mut self,
        token: Token,
        callee: Rc<Value>,
        done: Vec<Rc<Value>>,
        all: Vec<Box<Expression>>,
        scope: usize,
        v: Rc<Value>,
    ) -> (r: Action)
        requires
            stack_ok(old(self)@),
            scope < old(self)@.frames.len(),
            pins(v@, old(self)@.frames),
            pins(callee@, old(self)@.frames),
            all_pin(values_view(done@), old(self)@.frames),
        ensures
            final(self).wf(),
            final(self)@ == return_step(
                old(self)@,
                KontView::Arguments(
                    token@,
                    callee@,
                    values_view(done@),
                    exprs_view(all@),
                    scope as nat,
                ),
                v@,
            ).machine,
            r@ == return_step(
                old(self)@,
                KontView::Arguments(
                    token@,
                    callee@,
                    values_view(done@),
                    exprs_view(all@),
                    scope as nat,
                ),
                v@,
            ).action,
    {
        if v.is_void() {
            return self.fail(EvalError::VoidValueAsArgument(token.position));
        }
        let mut done = done;
        let ghost before = values_view(done@);
        assert(before.len() == done@.len());
        assert(exprs_view(all@).len() == all@.len());
        done.push(v);
        assert(values_view(done@) =~= before.push(v@));
        if done.len() < all.len() {
            let next = all[done.len()].dup();
            assert(exprs_view(all@)[done.len() as int] == all@[done.len() as int]@);
            self.push_go(
                Kont::Arguments(token, callee, done, all, scope),
                Control::Eval(next, scope),
            )
        } else {
            self.invoke(token, callee, done)
        }
    }

    fn on_let(&mut self, token: Token, name: Token, scope: usize, v: Rc<Value>) -> (r: Action)
        requires
            stack_ok(old(self)@),
            scope < old(self)@.frames.len(),
            pins(v@, old(self)@.frames),
        ensures
            final(self).wf(),
            final(self)@ == return_step(
                old(self)@,
                KontView::Let(token@, name@, scope as nat),
                v@,
            ).machine,
            r@ == return_step(old(self)@, KontView::Let(token@, name@, scope as nat), v@).action,
    {
        if v.is_void() {
            return self.fail(EvalError::TriedToStoreVoid(token.position));
        }
        self.declare(scope, name.literal(), v);
        self.go(Control::Return(Value::new_void()))
    }

    fn on_assign(&mut self, name: Token, scope: usize, v: Rc<Value>) -> (r: Action)
        requires
            stack_ok(old(self)@),
            scope < old(self)@.frames.len(),
            pins(v@, old(self)@.frames),
        ensures
            final(self).wf(),
            final(self)@ == return_step(
                old(self)@,
                KontView::Assign(name@, scope as nat),
                v@,
            ).machine,
            r@ == return_step(old(self)@, KontView::Assign(name@, scope as nat), v@).action,
    {
        if v.is_void() {
            return self.fail(EvalError::TriedToStoreVoid(name.position));
        }
        let text = name.literal();
        proof {
            lemma_assigned_len(self@.frames, scope as nat, name@.text(), v@);
            lemma_assigned_pins(self@.frames, scope as nat, name@.text(), v@);
            lemma_stack_pins_when_grown(
                self@.stack,
                self@.frames,
                assigned(self@.frames, scope as nat, name@.text(), v@),
            );
        }
        if !self.env.assign(scope, text.as_str(), v) {
            return self.fail(EvalError::NotDefined(text, name.position));
        }
        assert(stack_ok(self@));
        self.go(Control::Return(Value::new_void()))
    }

    fn on_statement(&mut self, block: Rc<Block>, next: usize, scope: usize, v: Rc<Value>) -> (r:
        Action)
        requires
            stack_ok(old(self)@),
            scope < old(self)@.frames.len(),
            pins(v@, old(self)@.frames),
        ensures
            final(self).wf(),
            final(self)@ == return_step(
                old(self)@,
                KontView::Block(block@, next as nat, scope as nat),
                v@,
            ).machine,
            r@ == return_step(
                old(self)@,
                KontView::Block(block@, next as nat, scope as nat),
                v@,
            ).action,
    {
        assert(block@.statements.len() == block.statements@.len());
        if v.is_returned() || next >= block.statements.len() {
            self.go(Control::Return(v))
        } else {
            let statement = block.statements[next].dup();
            assert(block@.statements[next as int] == block.statements@[next as int]@);
            self.push_go(Kont::Block(block, next + 1, scope), Control::Exec(statement, scope))
        }
    }

    fn on_condition(
        &mut self,
        token: Token,
        if_true: Rc<Block>,
        if_false: Option<Rc<Block>>,
        scope: usize,
        v: Rc<Value>,
    ) -> (r: Action)
        requires
            stack_ok(old(self)@),
            scope < old(self)@.frames.len(),
            pins(v@, old(self)@.frames),
        ensures
            final(self).wf(),
            final(self)@ == return_step(
                old(self)@,
                KontView::Branch(
                    token@,
                    if_true@,
                    match if_false {
                        Some(b) => Some(b@),
                        None => None,
                    },
                    scope as nat,
                ),
                v@,
            ).machine,
            r@ == return_step(
                old(self)@,
                KontView::Branch(
                    token@,
                    if_true@,
                    match if_false {
                        Some(b) => Some(b@),
                        None => None,
                    },
                    scope as nat,
                ),
                v@,
            ).action,
    {
        let chosen = match &*v {
            Value::Boolean(true) => Some(if_true),
            Value::Boolean(false) => if_false,
            _ => {
                return self.fail(EvalError::NonBooleanCondition(v.to_string(), token.position));
            },
        };
        match chosen {
            Some(block) => {
                let inner = self.nest(scope);
                self.push(Kont::BranchEnd(inner));
                self.enter_block(block, inner)
            },
            None => self.go(Control::Return(Value::new_void())),
        }
    }

    fn on_program_statement(
        &mut self,
        statements: Vec<Box<Statement>>,
        next: usize,
        scope: usize,
        v: Rc<Value>,
    ) -> (r: Action)
        requires
            stack_ok(old(self)@),
            scope < old(self)@.frames.len(),
            pins(v@, old(self)@.frames),
        ensures
            final(self).wf(),
            final(self)@ == return_step(
                old(self)@,
                KontView::Program(stmts_view(statements@), next as nat, scope as nat),
                v@,
            ).machine,
            r@ == return_step(
                old(self)@,
                KontView::Program(stmts_view(statements@), next as nat, scope as nat),
                v@,
            ).action,
    {
        assert(stmts_view(statements@).len() == statements@.len());
        if next >= statements.len() {
            self.go(Control::Return(v))
        } else {
            let statement = statements[next].dup();
            assert(stmts_view(statements@)[next as int] == statements@[next as int]@);
            self.push_go(
                Kont::Program(statements, next + 1, scope),
                Control::Exec(statement, scope),
            )
        }
    }

    fn return_step(&mut self, k: Kont, v: Rc<Value>) -> (r: Action)
        requires
            stack_ok(old(self)@),
            match kont_scope(k@) {
                Some(scope) => scope < old(self)@.frames.len(),
                None => true,
            },
            match kont_releases(k@) {
                Some(scope) => old(self)@.base <= scope && beneath(old(self)@.stack, scope),
                None => true,
            },
            kont_pins(k@, old(self)@.frames),
            pins(v@, old(self)@.frames),
        ensures
            final(self).wf(),
            final(self)@ == return_step(old(self)@, k@, v@).machine,
            r@ == return_step(old(self)@, k@, v@).action,
    {
        match k {
            Kont::Prefix(op) => {
                let outcome = eval_prefix(&op, &v);
                proof {
                    lemma_outcomes_pin(op@, v@, v@, self@.frames);
                }
                self.settle(outcome)
            },
            Kont::InfixRight(op, right, scope) => self.push_go(
                Kont::InfixApply(op, v),
                Control::Eval(right, scope),
            ),
            Kont::InfixApply(op, left) => {
                let outcome = eval_infix(&left, &op, &v);
                proof {
                    lemma_outcomes_pin(op@, left@, v@, self@.frames);
                }
                self.settle(outcome)
            },
            Kont::Elements(done, all, scope) => self.on_element(done, all, scope, v),
            Kont::Callee(token, arguments, scope) => self.on_callee(token, arguments, scope, v),
            Kont::Arguments(token, callee, done, all, scope) => self.on_argument(
                token,
                callee,
                done,
                all,
                scope,
                v,
            ),
            Kont::CallBoundary(scope) => {
                proof {
                    lemma_pins_after_release(unwrapped(v@), self@.frames, scope as nat);
                }
                self.release(scope);
                self.go(Control::Return(v.unwrap_returned()))
            },
            Kont::IndexRight(token, index, scope) => self.push_go(
                Kont::IndexApply(token, v),
                Control::Eval(index, scope),
            ),
            Kont::IndexApply(token, of) => {
                let outcome = eval_index(&token, &of, &v);
                proof {
                    lemma_outcomes_pin(token@, of@, v@, self@.frames);
                }
                self.settle(outcome)
            },
            Kont::Let(token, name, scope) => self.on_let(token, name, scope, v),
            Kont::Assign(name, scope) => self.on_assign(name, scope, v),
            Kont::ReturnWrap => self.go(Control::Return(Value::new_returned(v))),
            Kont::Block(block, next, scope) => self.on_statement(block, next, scope, v),
            Kont::Branch(token, if_true, if_false, scope) => self.on_condition(
                token,
                if_true,
                if_false,
                scope,
                v,
            ),
            Kont::BranchEnd(scope) => {
                proof {
                    lemma_pins_after_release(v@, self@.frames, scope as nat);
                }
                self.release(scope);
                if v.is_returned() {
                    self.go(Control::Return(v))
                } else {
                    self.go(Control::Return(Value::new_void()))
                }
            },
            Kont::BlockEnd(scope) => {
                proof {
                    lemma_pins_after_release(v@, self@.frames, scope as nat);
                }
                self.release(scope);
                self.go(Control::Return(v))
            },
            Kont::Program(statements, next, scope) => self.on_program_statement(
                statements,
                next,
                scope,
                v,
            ),
        }
    }

    /// Runs one step.
    pub fn step(&mut self) -> (r: Action)
        requires
            old(self).wf(),
        ensures
            final(self).wf(),
            final(self)@ == step(old(self)@).machine,
            r@ == step(old(self)@).action,
    {
        let mut control = Control::Idle;
        std::mem::swap(&mut control, &mut self.control);
        match control {
            Control::Idle => Action::Stalled,
            Control::Await => {
                self.control = Control::Await;
                Action::Stalled
            },
            Control::Eval(e, scope) => self.eval_step(e, scope),
            Control::Exec(s, scope) => self.exec_step(s, scope),
            Control::Return(v) => {
                let ghost before = self@.stack;
                match self.stack.pop() {
                    None => Action::Done(v),
                    Some(k) => {
                        assert(self@.stack =~= before.drop_last());
                        assert(k@ == before.last());
                        assert(before.take(before.len() - 1) =~= before.drop_last());
                        proof {
                            let after = self@.stack;
                            assert forall|j: int| 0 <= j < after.len() implies match kont_releases(
                                #[trigger] after[j],
                            ) {
                                Some(scope) => self@.base <= scope && beneath(
                                    after.take(j),
                                    scope,
                                ),
                                None => true,
                            } by {
                                assert(after[j] == before[j]);
                                assert(after.take(j) =~= before.take(j));
                            }
                        }
                        self.return_step(k, v)
                    },
                }
            },
        }
    }

    /// Runs steps until one asks for something or `fuel` steps are done.
    /// `Continue` means that the fuel ran out.
    pub fn run(&mut self, fuel: u64) -> (r: Action)
        requires
            old(self).wf(),
        ensures
            final(self).wf(),
            final(self)@ == run(old(self)@, fuel as nat).machine,
            r@ == run(old(self)@, fuel as nat).action,
    {
        let mut left = fuel;
        while left > 0
            invariant
                self.wf(),
                run(self@, left as nat) == run(old(self)@, fuel as nat),
            decreases left,
        {
            let ghost before = self@;
            let action = self.step();
            match action {
                Action::Continue => {
                    left = left - 1;
                },
                other => {
                    return other;
                },
            }
        }
        Action::Continue
    }
}

/// What `fuel` steps do, stopping early at the first step that asks for
/// something.
pub open spec fn run(m: MachineView, fuel: nat) -> Stepped
    decreases fuel,
{
    if fuel == 0 {
        Stepped { machine: m, action: ActionView::Continue }
    } else {
        let next = step(m);
        if next.action is Continue {
            run(next.machine, (fuel - 1) as nat)
        } else {
            next
        }
    }
}

} // verus!
