//! What an expression means, and that the machine computes it.
//!
//! The meaning of an expression that holds no call and no function is
//! what its evaluation comes to in a scope: a value, an error, or a
//! request for a floating-point computation. The machine, set to evaluate
//! such an expression, comes after a number of steps to hand that value
//! on to the work that was pending, to fail with that error, or to ask for
//! that computation, and it leaves the pending work and the scopes as they
//! were.

use vstd::prelude::*;
use crate::ast::ExprView;
use crate::env::{lookup, FrameView};
use crate::eval::{
    index_result, infix_result, prefix_result, EvalError, EvalErrorView, FloatRequest,
    OutcomeView,
};
use crate::machine::{
    eval_step, literal_value, return_step, run, settle, step, ActionView, ControlView, KontView,
    MachineView, Stepped,
};
use crate::token::TokenView;
use crate::value::ValueView;

verus! {

/// An expression that holds no call and no function.
pub open spec fn simple(e: ExprView) -> bool
    decreases e,
{
    match e {
        ExprView::Identifier(_) => true,
        ExprView::Integer(_) => true,
        ExprView::Float(_) => true,
        ExprView::Boolean(_) => true,
        ExprView::StringLiteral(_) => true,
        ExprView::Prefixed(_, right) => simple(*right),
        ExprView::Infixed(left, _, right) => simple(*left) && simple(*right),
        ExprView::Array(_, elements) => forall|i: int|
            0 <= i < elements.len() ==> simple(#[trigger] elements[i]),
        ExprView::Index(_, of, index) => simple(*of) && simple(*index),
        _ => false,
    }
}

/// What the evaluation of a simple expression comes to in the scope, if
/// all that it asks for is asked for by its last operation: its operands
/// are evaluated from left to right, and the first error ends the
/// evaluation.
pub open spec fn meaning(e: ExprView, frames: Seq<FrameView>, scope: nat) -> Option<OutcomeView>
    decreases e, 0nat,
{
    match e {
        ExprView::Identifier(t) => match lookup(frames, scope, t.text()) {
            Some(v) => Some(OutcomeView::Value(v)),
            None => Some(OutcomeView::Error(EvalError::NotDefined(t.text(), t.position))),
        },
        ExprView::Integer(t) => Some(OutcomeView::Value(literal_value(t))),
        ExprView::Boolean(t) => Some(OutcomeView::Value(literal_value(t))),
        ExprView::StringLiteral(t) => Some(OutcomeView::Value(literal_value(t))),
        ExprView::Float(t) => Some(OutcomeView::Ask(FloatRequest::Literal(t.text()))),
        ExprView::Prefixed(op, right) => match meaning(*right, frames, scope) {
            Some(OutcomeView::Value(v)) => Some(prefix_result(op, v)),
            Some(OutcomeView::Error(e)) => Some(OutcomeView::Error(e)),
            _ => None,
        },
        ExprView::Infixed(left, op, right) => match meaning(*left, frames, scope) {
            Some(OutcomeView::Value(a)) => match meaning(*right, frames, scope) {
                Some(OutcomeView::Value(b)) => Some(infix_result(op, a, b)),
                Some(OutcomeView::Error(e)) => Some(OutcomeView::Error(e)),
                _ => None,
            },
            Some(OutcomeView::Error(e)) => Some(OutcomeView::Error(e)),
            _ => None,
        },
        ExprView::Array(_, elements) => meanings(elements, 0, Seq::empty(), frames, scope),
        ExprView::Index(t, of, index) => match meaning(*of, frames, scope) {
            Some(OutcomeView::Value(a)) => match meaning(*index, frames, scope) {
                Some(OutcomeView::Value(b)) => Some(index_result(t, a, b)),
                Some(OutcomeView::Error(e)) => Some(OutcomeView::Error(e)),
                _ => None,
            },
            Some(OutcomeView::Error(e)) => Some(OutcomeView::Error(e)),
            _ => None,
        },
        _ => None,
    }
}

/// What the evaluation of the elements of an array from the element `k`
/// on comes to, after the values in `done`: the array of all the values.
pub open spec fn meanings(
    elements: Seq<ExprView>,
    k: int,
    done: Seq<ValueView>,
    frames: Seq<FrameView>,
    scope: nat,
) -> Option<OutcomeView>
    decreases elements, elements.len() - k,
{
    if k < 0 || k >= elements.len() {
        Some(OutcomeView::Value(ValueView::Array(done)))
    } else {
        match meaning(elements[k], frames, scope) {
            Some(OutcomeView::Value(v)) => meanings(elements, k + 1, done.push(v), frames, scope),
            Some(OutcomeView::Error(e)) => Some(OutcomeView::Error(e)),
            _ => None,
        }
    }
}

/// Whether the meaning is a value.
pub open spec fn is_value(o: Option<OutcomeView>) -> bool {
    o is Some && o->0 is Value
}

/// How many steps the machine takes to evaluate a simple expression.
pub open spec fn cost(e: ExprView, frames: Seq<FrameView>, scope: nat) -> nat
    decreases e, 0nat,
{
    match e {
        ExprView::Prefixed(_, right) => 1 + cost(*right, frames, scope) + if is_value(
            meaning(*right, frames, scope),
        ) {
            1nat
        } else {
            0nat
        },
        ExprView::Infixed(left, _, right) => 1 + cost(*left, frames, scope) + if is_value(
            meaning(*left, frames, scope),
        ) {
            1 + cost(*right, frames, scope) + if is_value(meaning(*right, frames, scope)) {
                1nat
            } else {
                0nat
            }
        } else {
            0nat
        },
        ExprView::Index(_, of, index) => 1 + cost(*of, frames, scope) + if is_value(
            meaning(*of, frames, scope),
        ) {
            1 + cost(*index, frames, scope) + if is_value(meaning(*index, frames, scope)) {
                1nat
            } else {
                0nat
            }
        } else {
            0nat
        },
        ExprView::Array(_, elements) => if elements.len() == 0 {
            1
        } else {
            1 + costs(elements, 0, frames, scope)
        },
        _ => 1,
    }
}

/// How many steps the machine takes to evaluate the elements of an array
/// from the element `k` on.
pub open spec fn costs(elements: Seq<ExprView>, k: int, frames: Seq<FrameView>, scope: nat) -> nat
    decreases elements, elements.len() - k,
{
    if k < 0 || k >= elements.len() {
        0
    } else {
        cost(elements[k], frames, scope) + if is_value(meaning(elements[k], frames, scope)) {
            1 + costs(elements, k + 1, frames, scope)
        } else {
            0nat
        }
    }
}

/// The machine `m`, about to do `control`.
pub open spec fn about_to(m: MachineView, control: ControlView) -> MachineView {
    MachineView { base: m.base, frames: m.frames, control, stack: m.stack }
}

/// The machine `m` with `k` on top of its stack.
pub open spec fn with_pending(m: MachineView, k: KontView) -> MachineView {
    MachineView { base: m.base, frames: m.frames, control: m.control, stack: m.stack.push(k) }
}

/// What the machine has come to after so many steps: what `run` says.
#[verifier::opaque]
pub open spec fn after(m: MachineView, steps: nat) -> Stepped {
    run(m, steps)
}

/// Steps add up: so many steps and so many more are as many as both, as
/// long as no step asks for anything.
pub proof fn lemma_run_add(m: MachineView, a: nat, b: nat)
    ensures
        run(m, a + b) == if run(m, a).action is Continue {
            run(run(m, a).machine, b)
        } else {
            run(m, a)
        },
    decreases a,
{
    if a > 0 {
        let next = step(m);
        if next.action is Continue {
            lemma_run_add(next.machine, (a - 1) as nat, b);
            assert(run(m, a + b) == run(next.machine, (a + b - 1) as nat));
        }
    }
}

/// Where so many steps have come to a machine that goes on, so many more
/// are the steps of that machine.
proof fn lemma_after_then(m: MachineView, a: nat, b: nat, then: MachineView)
    requires
        after(m, a) == (Stepped { machine: then, action: ActionView::Continue }),
    ensures
        after(m, a + b) == after(then, b),
{
    reveal(after);
    lemma_run_add(m, a, b);
}

/// Where so many steps have come to an end, more steps change nothing.
proof fn lemma_after_end(m: MachineView, a: nat, b: nat)
    requires
        !(after(m, a).action is Continue),
    ensures
        after(m, a + b) == after(m, a),
{
    reveal(after);
    lemma_run_add(m, a, b);
}

/// Where one step comes to a machine that goes on, a step and so many more
/// are the steps of that machine.
proof fn lemma_step_then(m: MachineView, b: nat, then: MachineView)
    requires
        step(m) == (Stepped { machine: then, action: ActionView::Continue }),
    ensures
        after(m, 1 + b) == after(then, b),
{
    reveal(after);
}

/// One step is one step.
proof fn lemma_one_step(m: MachineView)
    ensures
        after(m, 1) == step(m),
{
    reveal(after);
    assert(run(step(m).machine, 0) == (Stepped {
        machine: step(m).machine,
        action: ActionView::Continue,
    }));
}

/// The machine fails in the same way whatever is pending.
proof fn lemma_fails_alike(m: MachineView, k: KontView, error: EvalErrorView)
    ensures
        settle(with_pending(m, k), OutcomeView::Error(error)) == settle(
            m,
            OutcomeView::Error(error),
        ),
{
}

/// A name or a literal is evaluated in one step.
proof fn lemma_atom_step(m: MachineView, e: ExprView, scope: nat)
    requires
        e is Identifier || e is Integer || e is Float || e is Boolean || e is StringLiteral,
    ensures
        meaning(e, m.frames, scope) is Some,
        after(about_to(m, ControlView::Eval(e, scope)), 1) == settle(
            m,
            meaning(e, m.frames, scope)->0,
        ),
{
    let start = about_to(m, ControlView::Eval(e, scope));
    lemma_one_step(start);
    assert(step(start) == eval_step(start, e, scope));
}

/// The first step of the evaluation of a prefix operation.
proof fn lemma_prefix_in(m: MachineView, e: ExprView, scope: nat, more: nat)
    requires
        e is Prefixed,
    ensures
        after(about_to(m, ControlView::Eval(e, scope)), 1 + more) == after(
            about_to(
                with_pending(m, KontView::Prefix(e->Prefixed_0)),
                ControlView::Eval(*e->Prefixed_1, scope),
            ),
            more,
        ),
{
    let start = about_to(m, ControlView::Eval(e, scope));
    assert(step(start) == eval_step(start, e, scope));
    lemma_step_then(
        start,
        more,
        about_to(
            with_pending(m, KontView::Prefix(e->Prefixed_0)),
            ControlView::Eval(*e->Prefixed_1, scope),
        ),
    );
}

/// The step that takes the value `v` for the pending work `k`.
proof fn lemma_return_step(m: MachineView, k: KontView, v: ValueView)
    ensures
        step(about_to(with_pending(m, k), ControlView::Return(v))) == return_step(
            about_to(m, ControlView::Return(v)),
            k,
            v,
        ),
{
    let back = about_to(with_pending(m, k), ControlView::Return(v));
    assert(back.stack.drop_last() =~= m.stack);
    assert(back.stack.last() == k);
}

/// The last step of the evaluation of a prefix operation.
proof fn lemma_prefix_out(m: MachineView, op: TokenView, v: ValueView)
    ensures
        after(about_to(with_pending(m, KontView::Prefix(op)), ControlView::Return(v)), 1)
            == settle(m, prefix_result(op, v)),
{
    let k = KontView::Prefix(op);
    lemma_one_step(about_to(with_pending(m, k), ControlView::Return(v)));
    lemma_return_step(m, k, v);
}

/// The first step of the evaluation of an infix operation.
proof fn lemma_infix_in(m: MachineView, e: ExprView, scope: nat, more: nat)
    requires
        e is Infixed,
    ensures
        after(about_to(m, ControlView::Eval(e, scope)), 1 + more) == after(
            about_to(
                with_pending(m, KontView::InfixRight(e->Infixed_1, *e->Infixed_2, scope)),
                ControlView::Eval(*e->Infixed_0, scope),
            ),
            more,
        ),
{
    let start = about_to(m, ControlView::Eval(e, scope));
    assert(step(start) == eval_step(start, e, scope));
    lemma_step_then(
        start,
        more,
        about_to(
            with_pending(m, KontView::InfixRight(e->Infixed_1, *e->Infixed_2, scope)),
            ControlView::Eval(*e->Infixed_0, scope),
        ),
    );
}

/// The step from the left operand of an infix operation to the right one.
proof fn lemma_infix_turn(
    m: MachineView,
    op: TokenView,
    right: ExprView,
    scope: nat,
    x: ValueView,
    more: nat,
)
    ensures
        after(
            about_to(
                with_pending(m, KontView::InfixRight(op, right, scope)),
                ControlView::Return(x),
            ),
            1 + more,
        ) == after(
            about_to(
                with_pending(m, KontView::InfixApply(op, x)),
                ControlView::Eval(right, scope),
            ),
            more,
        ),
{
    let k = KontView::InfixRight(op, right, scope);
    lemma_return_step(m, k, x);
    lemma_step_then(
        about_to(with_pending(m, k), ControlView::Return(x)),
        more,
        about_to(with_pending(m, KontView::InfixApply(op, x)), ControlView::Eval(right, scope)),
    );
}

/// The last step of the evaluation of an infix operation.
proof fn lemma_infix_out(m: MachineView, op: TokenView, x: ValueView, y: ValueView)
    ensures
        after(about_to(with_pending(m, KontView::InfixApply(op, x)), ControlView::Return(y)), 1)
            == settle(m, infix_result(op, x, y)),
{
    let k = KontView::InfixApply(op, x);
    lemma_one_step(about_to(with_pending(m, k), ControlView::Return(y)));
    lemma_return_step(m, k, y);
}

/// The first step of the evaluation of an indexing.
proof fn lemma_index_in(m: MachineView, e: ExprView, scope: nat, more: nat)
    requires
        e is Index,
    ensures
        after(about_to(m, ControlView::Eval(e, scope)), 1 + more) == after(
            about_to(
                with_pending(m, KontView::IndexRight(e->Index_0, *e->Index_2, scope)),
                ControlView::Eval(*e->Index_1, scope),
            ),
            more,
        ),
{
    let start = about_to(m, ControlView::Eval(e, scope));
    assert(step(start) == eval_step(start, e, scope));
    lemma_step_then(
        start,
        more,
        about_to(
            with_pending(m, KontView::IndexRight(e->Index_0, *e->Index_2, scope)),
            ControlView::Eval(*e->Index_1, scope),
        ),
    );
}

/// The step from what is indexed to the index.
proof fn lemma_index_turn(
    m: MachineView,
    token: TokenView,
    index: ExprView,
    scope: nat,
    x: ValueView,
    more: nat,
)
    ensures
        after(
            about_to(
                with_pending(m, KontView::IndexRight(token, index, scope)),
                ControlView::Return(x),
            ),
            1 + more,
        ) == after(
            about_to(
                with_pending(m, KontView::IndexApply(token, x)),
                ControlView::Eval(index, scope),
            ),
            more,
        ),
{
    let k = KontView::IndexRight(token, index, scope);
    lemma_return_step(m, k, x);
    lemma_step_then(
        about_to(with_pending(m, k), ControlView::Return(x)),
        more,
        about_to(with_pending(m, KontView::IndexApply(token, x)), ControlView::Eval(index, scope)),
    );
}

/// The last step of the evaluation of an indexing.
proof fn lemma_index_out(m: MachineView, token: TokenView, x: ValueView, y: ValueView)
    ensures
        after(
            about_to(with_pending(m, KontView::IndexApply(token, x)), ControlView::Return(y)),
            1,
        ) == settle(m, index_result(token, x, y)),
{
    let k = KontView::IndexApply(token, x);
    lemma_one_step(about_to(with_pending(m, k), ControlView::Return(y)));
    lemma_return_step(m, k, y);
}

/// The first step of the evaluation of an array.
proof fn lemma_array_in(m: MachineView, e: ExprView, scope: nat, more: nat)
    requires
        e is Array,
    ensures
        e->Array_1.len() == 0 ==> after(about_to(m, ControlView::Eval(e, scope)), 1) == settle(
            m,
            OutcomeView::Value(ValueView::Array(Seq::empty())),
        ),
        e->Array_1.len() > 0 ==> after(about_to(m, ControlView::Eval(e, scope)), 1 + more)
            == after(
            about_to(
                with_pending(m, KontView::Elements(Seq::empty(), e->Array_1, scope)),
                ControlView::Eval(e->Array_1[0], scope),
            ),
            more,
        ),
{
    let start = about_to(m, ControlView::Eval(e, scope));
    assert(step(start) == eval_step(start, e, scope));
    if e->Array_1.len() == 0 {
        lemma_one_step(start);
    } else {
        lemma_step_then(
            start,
            more,
            about_to(
                with_pending(m, KontView::Elements(Seq::empty(), e->Array_1, scope)),
                ControlView::Eval(e->Array_1[0], scope),
            ),
        );
    }
}

/// The step that takes the value of an element of an array.
proof fn lemma_element_out(
    m: MachineView,
    done: Seq<ValueView>,
    elements: Seq<ExprView>,
    scope: nat,
    v: ValueView,
    more: nat,
)
    ensures
        done.len() + 1 < elements.len() ==> after(
            about_to(
                with_pending(m, KontView::Elements(done, elements, scope)),
                ControlView::Return(v),
            ),
            1 + more,
        ) == after(
            about_to(
                with_pending(m, KontView::Elements(done.push(v), elements, scope)),
                ControlView::Eval(elements[done.len() as int + 1], scope),
            ),
            more,
        ),
        done.len() + 1 >= elements.len() ==> after(
            about_to(
                with_pending(m, KontView::Elements(done, elements, scope)),
                ControlView::Return(v),
            ),
            1,
        ) == settle(m, OutcomeView::Value(ValueView::Array(done.push(v)))),
{
    let k = KontView::Elements(done, elements, scope);
    let back = about_to(with_pending(m, k), ControlView::Return(v));
    lemma_return_step(m, k, v);
    if done.len() + 1 < elements.len() {
        lemma_step_then(
            back,
            more,
            about_to(
                with_pending(m, KontView::Elements(done.push(v), elements, scope)),
                ControlView::Eval(elements[done.len() as int + 1], scope),
            ),
        );
    } else {
        lemma_one_step(back);
    }
}

/// The machine, about to evaluate a simple expression, comes after as many
/// steps as the evaluation costs to what the expression means.
proof fn lemma_computes(m: MachineView, e: ExprView, scope: nat)
    requires
        simple(e),
        meaning(e, m.frames, scope) is Some,
    ensures
        after(about_to(m, ControlView::Eval(e, scope)), cost(e, m.frames, scope)) == settle(
            m,
            meaning(e, m.frames, scope)->0,
        ),
    decreases e, 1nat,
{
    match e {
        ExprView::Prefixed(_, _) => {
            lemma_prefixed_computes(m, e, scope);
        },
        ExprView::Infixed(_, _, _) => {
            lemma_infixed_computes(m, e, scope);
        },
        ExprView::Index(_, _, _) => {
            lemma_index_computes(m, e, scope);
        },
        ExprView::Array(_, _) => {
            lemma_array_computes(m, e, scope);
        },
        _ => {
            lemma_atom_step(m, e, scope);
        },
    }
}

/// `lemma_computes` for a prefix operation.
proof fn lemma_prefixed_computes(m: MachineView, e: ExprView, scope: nat)
    requires
        e is Prefixed,
        simple(e),
        meaning(e, m.frames, scope) is Some,
    ensures
        after(about_to(m, ControlView::Eval(e, scope)), cost(e, m.frames, scope)) == settle(
            m,
            meaning(e, m.frames, scope)->0,
        ),
    decreases e, 0nat,
{
    let op = e->Prefixed_0;
    let right = *e->Prefixed_1;
    let pending = with_pending(m, KontView::Prefix(op));
    let inner = about_to(pending, ControlView::Eval(right, scope));
    let n = cost(right, m.frames, scope);
    lemma_computes(pending, right, scope);
    match meaning(right, m.frames, scope)->0 {
        OutcomeView::Value(v) => {
            lemma_prefix_in(m, e, scope, n + 1);
            lemma_after_then(inner, n, 1, about_to(pending, ControlView::Return(v)));
            lemma_prefix_out(m, op, v);
        },
        OutcomeView::Error(error) => {
            lemma_prefix_in(m, e, scope, n);
            lemma_fails_alike(m, KontView::Prefix(op), error);
        },
        OutcomeView::Ask(_) => {},
    }
}

/// `lemma_computes` for an infix operation.
proof fn lemma_infixed_computes(m: MachineView, e: ExprView, scope: nat)
    requires
        e is Infixed,
        simple(e),
        meaning(e, m.frames, scope) is Some,
    ensures
        after(about_to(m, ControlView::Eval(e, scope)), cost(e, m.frames, scope)) == settle(
            m,
            meaning(e, m.frames, scope)->0,
        ),
    decreases e, 0nat,
{
    let left = *e->Infixed_0;
    let op = e->Infixed_1;
    let right = *e->Infixed_2;
    let first = with_pending(m, KontView::InfixRight(op, right, scope));
    let inner = about_to(first, ControlView::Eval(left, scope));
    let a = cost(left, m.frames, scope);
    lemma_computes(first, left, scope);
    match meaning(left, m.frames, scope)->0 {
        OutcomeView::Value(x) => {
            let second = with_pending(m, KontView::InfixApply(op, x));
            let again = about_to(second, ControlView::Eval(right, scope));
            let b = cost(right, m.frames, scope);
            lemma_computes(second, right, scope);
            match meaning(right, m.frames, scope)->0 {
                OutcomeView::Value(y) => {
                    lemma_infix_in(m, e, scope, a + (1 + (b + 1)));
                    lemma_after_then(
                        inner,
                        a,
                        1 + (b + 1),
                        about_to(first, ControlView::Return(x)),
                    );
                    lemma_infix_turn(m, op, right, scope, x, b + 1);
                    lemma_after_then(again, b, 1, about_to(second, ControlView::Return(y)));
                    lemma_infix_out(m, op, x, y);
                },
                OutcomeView::Error(error) => {
                    lemma_infix_in(m, e, scope, a + (1 + b));
                    lemma_after_then(inner, a, 1 + b, about_to(first, ControlView::Return(x)));
                    lemma_infix_turn(m, op, right, scope, x, b);
                    lemma_fails_alike(m, KontView::InfixApply(op, x), error);
                },
                OutcomeView::Ask(_) => {},
            }
        },
        OutcomeView::Error(error) => {
            lemma_infix_in(m, e, scope, a);
            lemma_fails_alike(m, KontView::InfixRight(op, right, scope), error);
        },
        OutcomeView::Ask(_) => {},
    }
}

/// `lemma_computes` for an indexing.
proof fn lemma_index_computes(m: MachineView, e: ExprView, scope: nat)
    requires
        e is Index,
        simple(e),
        meaning(e, m.frames, scope) is Some,
    ensures
        after(about_to(m, ControlView::Eval(e, scope)), cost(e, m.frames, scope)) == settle(
            m,
            meaning(e, m.frames, scope)->0,
        ),
    decreases e, 0nat,
{
    let token = e->Index_0;
    let of = *e->Index_1;
    let index = *e->Index_2;
    let first = with_pending(m, KontView::IndexRight(token, index, scope));
    let inner = about_to(first, ControlView::Eval(of, scope));
    let a = cost(of, m.frames, scope);
    lemma_computes(first, of, scope);
    match meaning(of, m.frames, scope)->0 {
        OutcomeView::Value(x) => {
            let second = with_pending(m, KontView::IndexApply(token, x));
            let again = about_to(second, ControlView::Eval(index, scope));
            let b = cost(index, m.frames, scope);
            lemma_computes(second, index, scope);
            match meaning(index, m.frames, scope)->0 {
                OutcomeView::Value(y) => {
                    lemma_index_in(m, e, scope, a + (1 + (b + 1)));
                    lemma_after_then(
                        inner,
                        a,
                        1 + (b + 1),
                        about_to(first, ControlView::Return(x)),
                    );
                    lemma_index_turn(m, token, index, scope, x, b + 1);
                    lemma_after_then(again, b, 1, about_to(second, ControlView::Return(y)));
                    lemma_index_out(m, token, x, y);
                },
                OutcomeView::Error(error) => {
                    lemma_index_in(m, e, scope, a + (1 + b));
                    lemma_after_then(inner, a, 1 + b, about_to(first, ControlView::Return(x)));
                    lemma_index_turn(m, token, index, scope, x, b);
                    lemma_fails_alike(m, KontView::IndexApply(token, x), error);
                },
                OutcomeView::Ask(_) => {},
            }
        },
        OutcomeView::Error(error) => {
            lemma_index_in(m, e, scope, a);
            lemma_fails_alike(m, KontView::IndexRight(token, index, scope), error);
        },
        OutcomeView::Ask(_) => {},
    }
}

/// `lemma_computes` for an array.
proof fn lemma_array_computes(m: MachineView, e: ExprView, scope: nat)
    requires
        e is Array,
        simple(e),
        meaning(e, m.frames, scope) is Some,
    ensures
        after(about_to(m, ControlView::Eval(e, scope)), cost(e, m.frames, scope)) == settle(
            m,
            meaning(e, m.frames, scope)->0,
        ),
    decreases e, 0nat,
{
    let elements = e->Array_1;
    lemma_array_in(m, e, scope, costs(elements, 0, m.frames, scope));
    if elements.len() > 0 {
        lemma_elements_compute(m, elements, 0, Seq::empty(), scope);
    }
}

/// The machine, about to evaluate the element `k` of an array after the
/// values in `done`, comes to what the rest of the elements mean.
proof fn lemma_elements_compute(
    m: MachineView,
    elements: Seq<ExprView>,
    k: int,
    done: Seq<ValueView>,
    scope: nat,
)
    requires
        0 <= k < elements.len(),
        done.len() == k,
        forall|i: int| 0 <= i < elements.len() ==> simple(#[trigger] elements[i]),
        meanings(elements, k, done, m.frames, scope) is Some,
    ensures
        after(
            about_to(
                with_pending(m, KontView::Elements(done, elements, scope)),
                ControlView::Eval(elements[k], scope),
            ),
            costs(elements, k, m.frames, scope),
        ) == settle(m, meanings(elements, k, done, m.frames, scope)->0),
    decreases elements, elements.len() - k,
{
    let pending = with_pending(m, KontView::Elements(done, elements, scope));
    let inner = about_to(pending, ControlView::Eval(elements[k], scope));
    let n = cost(elements[k], m.frames, scope);
    lemma_computes(pending, elements[k], scope);
    match meaning(elements[k], m.frames, scope)->0 {
        OutcomeView::Value(v) => {
            let rest = costs(elements, k + 1, m.frames, scope);
            assert(costs(elements, k, m.frames, scope) == n + (1 + rest));
            lemma_after_then(inner, n, 1 + rest, about_to(pending, ControlView::Return(v)));
            lemma_element_out(m, done, elements, scope, v, rest);
            if k + 1 < elements.len() {
                lemma_elements_compute(m, elements, k + 1, done.push(v), scope);
            }
        },
        OutcomeView::Error(error) => {
            lemma_fails_alike(m, KontView::Elements(done, elements, scope), error);
        },
        OutcomeView::Ask(_) => {},
    }
}

/// The machine, about to evaluate a simple expression, comes after as many
/// steps as the evaluation costs to what the expression means: it hands
/// the value on to the pending work, fails with the error, or asks for the
/// computation, and the pending work and the scopes are as they were.
pub proof fn lemma_machine_computes(m: MachineView, e: ExprView, scope: nat)
    requires
        simple(e),
        meaning(e, m.frames, scope) is Some,
    ensures
        run(about_to(m, ControlView::Eval(e, scope)), cost(e, m.frames, scope)) == settle(
            m,
            meaning(e, m.frames, scope)->0,
        ),
{
    reveal(after);
    lemma_computes(m, e, scope);
}

} // verus!
