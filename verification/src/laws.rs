//! What holds of the scopes and of the operations, whatever the program.

use vstd::prelude::*;
use vstd::arithmetic::div_mod::{
    lemma_div_basics, lemma_div_is_ordered_by_denominator, lemma_div_pos_is_pos,
    lemma_fundamental_div_mod, lemma_mod_pos_bound,
};
use crate::ast::BlockView;
use crate::env::{
    assigned, bound, frames_ok, lemma_owner, lookup, owner, released, trimmed, FrameView,
};
use crate::eval::{
    float_op, index_result, infix_result, magnitude, operand_is_zero, operand_text, quotient,
    EvalError, FloatRequest, Operand, OperandView, OutcomeView,
};
use crate::text::int_text;
use crate::machine::{
    invoke, machine_ok, return_step, ActionView, ControlView, KontView, MachineView,
};
use crate::pins::lemma_lookup_pins;
use crate::token::TokenView;
use crate::value::ValueView;

verus! {

/// A name that is declared in a scope stands there for the value that it
/// was declared with, whatever a scope around it binds the name to.
pub proof fn lemma_declared_is_seen(
    frames: Seq<FrameView>,
    scope: nat,
    name: Seq<char>,
    value: ValueView,
)
    requires
        frames_ok(frames),
        scope < frames.len(),
    ensures
        lookup(bound(frames, scope, name, value), scope, name) == Some(value),
{
}

/// Shadowing does not leak: a declaration in a scope changes nothing of
/// what the scopes that were made before it see, and nothing of what any
/// scope sees of another name.
pub proof fn lemma_declaration_does_not_leak(
    frames: Seq<FrameView>,
    scope: nat,
    name: Seq<char>,
    value: ValueView,
    from: nat,
    other: Seq<char>,
)
    requires
        frames_ok(frames),
        scope < frames.len(),
        from < scope || other != name,
    ensures
        lookup(bound(frames, scope, name, value), from, other) == lookup(frames, from, other),
    decreases from,
{
    if from < frames.len() {
        if !frames[from as int].vars.contains_key(other) {
            match frames[from as int].parent {
                Some(p) => {
                    if p < from {
                        lemma_declaration_does_not_leak(frames, scope, name, value, p, other);
                    }
                },
                None => {},
            }
        }
    }
}

/// An assignment binds no new name: every frame holds the names that it
/// held. Where the name is bound for the scope, the scope then sees the
/// value that was assigned; where it is not, nothing changes.
pub proof fn lemma_assignment_binds_no_new_name(
    frames: Seq<FrameView>,
    scope: nat,
    name: Seq<char>,
    value: ValueView,
)
    requires
        frames_ok(frames),
    ensures
        assigned(frames, scope, name, value).len() == frames.len(),
        forall|i: int|
            0 <= i < frames.len() ==> (#[trigger] assigned(frames, scope, name, value)[i]).vars.dom()
                == frames[i].vars.dom(),
        owner(frames, scope, name) is Some ==> lookup(
            assigned(frames, scope, name, value),
            scope,
            name,
        ) == Some(value),
        owner(frames, scope, name) is None ==> assigned(frames, scope, name, value) == frames,
{
    lemma_owner(frames, scope, name);
    match owner(frames, scope, name) {
        Some(f) => {
            let after = assigned(frames, scope, name, value);
            assert forall|i: int| 0 <= i < frames.len() implies (#[trigger] after[i]).vars.dom()
                == frames[i].vars.dom() by {
                if i == f {
                    assert(after[i].vars.dom() =~= frames[i].vars.dom());
                }
            }
            lemma_assigned_is_seen(frames, scope, name, value, f);
        },
        None => {},
    }
}

/// An assignment is seen wherever the name stands for the same binding:
/// two scopes for which one frame binds the name share it, and what is
/// assigned from the one is what the other then sees.
pub proof fn lemma_assignment_is_shared(
    frames: Seq<FrameView>,
    from: nat,
    to: nat,
    name: Seq<char>,
    value: ValueView,
)
    requires
        frames_ok(frames),
        owner(frames, from, name) is Some,
        owner(frames, to, name) == owner(frames, from, name),
    ensures
        lookup(assigned(frames, from, name, value), to, name) == Some(value),
{
    lemma_assigned_is_seen(frames, to, name, value, owner(frames, from, name)->0);
}

/// After an assignment in the frame that binds the name for a scope, the
/// scope sees the value.
proof fn lemma_assigned_is_seen(
    frames: Seq<FrameView>,
    scope: nat,
    name: Seq<char>,
    value: ValueView,
    f: nat,
)
    requires
        frames_ok(frames),
        owner(frames, scope, name) == Some(f),
    ensures
        lookup(bound(frames, f, name, value), scope, name) == Some(value),
    decreases scope,
{
    lemma_owner(frames, scope, name);
    if scope < frames.len() && !frames[scope as int].vars.contains_key(name) {
        match frames[scope as int].parent {
            Some(p) => {
                if p < scope {
                    lemma_assigned_is_seen(frames, p, name, value, f);
                }
            },
            None => {},
        }
    }
}

/// A function that a scope of a consistent machine sees names a scope that
/// exists, and that no release and no trimming takes away: a function
/// keeps the scope in which it was made for as long as it can be reached.
pub proof fn lemma_functions_keep_their_scope(m: MachineView, from: nat, name: Seq<char>)
    requires
        machine_ok(m),
    ensures
        match lookup(m.frames, from, name) {
            Some(ValueView::Function(_, _, scope)) => {
                &&& scope < m.frames.len()
                &&& forall|other: nat| scope < (#[trigger] released(m.frames, other)).len()
                &&& forall|base: nat| scope < (#[trigger] trimmed(m.frames, base)).len()
            },
            _ => true,
        },
{
    lemma_lookup_pins(m.frames, from, name);
    match lookup(m.frames, from, name) {
        Some(ValueView::Function(_, _, scope)) => {
            assert forall|base: nat| scope < (#[trigger] trimmed(m.frames, base)).len() by {
                lemma_trimming_keeps_captured(m.frames, base, scope);
            }
        },
        _ => {},
    }
}

/// Trimming takes no captured scope away, and none before one.
pub proof fn lemma_trimming_keeps_captured(frames: Seq<FrameView>, base: nat, scope: nat)
    requires
        scope < frames.len(),
        frames[scope as int].captured,
    ensures
        scope < trimmed(frames, base).len(),
    decreases frames.len(),
{
    if frames.len() > base && frames.len() > 1 && !frames.last().captured {
        lemma_trimming_keeps_captured(frames.drop_last(), base, scope);
    }
}

/// An assignment to a name that no scope binds fails, and says that the
/// name is not defined.
pub proof fn lemma_assignment_needs_a_declaration(
    m: MachineView,
    name: TokenView,
    scope: nat,
    value: ValueView,
)
    requires
        lookup(m.frames, scope, name.text()) is None,
        !(value is Void),
    ensures
        return_step(m, KontView::Assign(name, scope), value).action == ActionView::Failed(
            EvalError::NotDefined(name.text(), name.position),
        ),
        return_step(m, KontView::Assign(name, scope), value).machine.control == ControlView::Idle,
{
    lemma_owner(m.frames, scope, name.text());
}

/// A call of a function with another number of arguments than it has
/// parameters fails, and says both numbers.
pub proof fn lemma_call_needs_every_argument(
    m: MachineView,
    token: TokenView,
    params: Seq<Seq<char>>,
    body: BlockView,
    captured: nat,
    args: Seq<ValueView>,
)
    requires
        captured < m.frames.len(),
        params.len() != args.len(),
    ensures
        invoke(m, token, ValueView::Function(params, body, captured), args).action
            == ActionView::Failed(
            EvalError::WrongNumberOfArguments(
                params.len() as usize,
                args.len() as usize,
                token.position,
            ),
        ),
{
}

/// Indexing an array yields the element at the index where the index is
/// within the length, and fails at any other integer, saying the index and
/// the length.
pub proof fn lemma_array_index(token: TokenView, values: Seq<ValueView>, i: i64)
    ensures
        0 <= i < values.len() ==> index_result(
            token,
            ValueView::Array(values),
            ValueView::Integer(i),
        ) == OutcomeView::Value(values[i as int]),
        !(0 <= i < values.len()) ==> index_result(
            token,
            ValueView::Array(values),
            ValueView::Integer(i),
        ) == OutcomeView::Error(
            EvalError::IndexOutOfBounds(i, values.len() as usize, token.position),
        ),
{
}

/// Indexing a string yields the character at the index, as a string of its
/// own, where the index is within the length, and fails at any other
/// integer, saying the index and the length.
pub proof fn lemma_string_index(token: TokenView, s: Seq<char>, i: i64)
    ensures
        0 <= i < s.len() ==> index_result(token, ValueView::String(s), ValueView::Integer(i))
            == OutcomeView::Value(ValueView::String(seq![s[i as int]])),
        !(0 <= i < s.len()) ==> index_result(token, ValueView::String(s), ValueView::Integer(i))
            == OutcomeView::Error(
            EvalError::IndexOutOfBounds(i, s.len() as usize, token.position),
        ),
{
}

/// A number as an operand of a floating-point operation.
pub open spec fn as_operand(v: ValueView) -> Option<OperandView> {
    match v {
        ValueView::Integer(i) => Some(Operand::Integer(i)),
        ValueView::Float(f) => Some(Operand::Float(f)),
        _ => None,
    }
}

/// Numbers promote: an arithmetic operation or a comparison on two numbers
/// of which one at least is a float is computed in floating point, on both
/// operands as they are, but for a division by zero, which fails.
pub proof fn lemma_numbers_promote(op: TokenView, left: ValueView, right: ValueView)
    requires
        as_operand(left) is Some,
        as_operand(right) is Some,
        left is Float || right is Float,
        float_op(op.kind) is Some,
    ensures
        infix_result(op, left, right) == if op.kind is Slash && operand_is_zero(
            as_operand(right)->0,
        ) {
            OutcomeView::Error(
                EvalError::DivisionByZero(
                    operand_text(as_operand(left)->0),
                    operand_text(as_operand(right)->0),
                    op.position,
                ),
            )
        } else {
            OutcomeView::Ask(
                FloatRequest::Binary(
                    float_op(op.kind)->0,
                    as_operand(left)->0,
                    as_operand(right)->0,
                ),
            )
        },
{
}

/// A division of an integer by the integer zero fails, whatever the
/// dividend; any other division of two integers yields their quotient.
pub proof fn lemma_integer_division(op: TokenView, left: i64, right: i64)
    requires
        op.kind is Slash,
    ensures
        right == 0 ==> infix_result(op, ValueView::Integer(left), ValueView::Integer(right))
            == OutcomeView::Error(
            EvalError::DivisionByZero(int_text(left as int), int_text(0), op.position),
        ),
        right != 0 ==> infix_result(op, ValueView::Integer(left), ValueView::Integer(right))
            == OutcomeView::Value(ValueView::Integer(quotient(left, right))),
{
}

/// The quotient of two integers is rounded towards zero: what is left of
/// the dividend is less in magnitude than the divisor and, if it is not
/// zero, has the sign of the dividend.
pub proof fn lemma_quotient_rounds_towards_zero(left: i64, right: i64)
    requires
        right != 0,
        left != i64::MIN || right != -1,
    ensures
        ({
            let rest = left - quotient(left, right) * right;
            &&& -magnitude(right) < rest < magnitude(right)
            &&& left >= 0 ==> rest >= 0
            &&& left <= 0 ==> rest <= 0
        }),
{
    let a = magnitude(left) as int;
    let b = magnitude(right) as int;
    let q = a / b;
    lemma_fundamental_div_mod(a, b);
    lemma_mod_pos_bound(a, b);
    lemma_div_pos_is_pos(a, b);
    lemma_div_is_ordered_by_denominator(a, 1, b);
    lemma_div_basics(a);
    assert(0 <= q <= a);
    assert(a == b * q + a % b);
    if b >= 2 {
        lemma_div_is_ordered_by_denominator(a, 2, b);
        assert(q <= a / 2);
    }
    assert(q <= i64::MAX || (left == i64::MIN && right == 1));
    if (left < 0) != (right < 0) {
        assert(quotient(left, right) == -q);
        assert((-q) * right == -(q * right)) by (nonlinear_arith);
        if right < 0 {
            assert(q * right == -(b * q)) by (nonlinear_arith)
                requires
                    right == -b,
            ;
        } else {
            assert(q * right == b * q) by (nonlinear_arith)
                requires
                    right == b,
            ;
        }
    } else {
        assert(quotient(left, right) == q);
        if right < 0 {
            assert(q * right == -(b * q)) by (nonlinear_arith)
                requires
                    right == -b,
            ;
        } else {
            assert(q * right == b * q) by (nonlinear_arith)
                requires
                    right == b,
            ;
        }
    }
}

} // verus!
