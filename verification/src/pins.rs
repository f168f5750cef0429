//! Function values pin the scopes that they name.
//!
//! A function value names the scope in which it was made, and that scope
//! is marked as captured when the function is made. A value pins its
//! scopes in a store if every function in it names a scope of the store
//! that is so marked. As only scopes that are not captured are released,
//! a value that pins its scopes goes on doing so whatever is declared,
//! assigned, nested, captured or released.

use vstd::prelude::*;
use crate::env::{
    assigned, bound, captured_at, declared, lemma_owner, lookup, nested, owner, released,
    trimmed, FrameView,
};
use crate::eval::{index_result, infix_result, length_result, prefix_result, OutcomeView};
use crate::token::{Position, TokenView};
use crate::value::ValueView;

verus! {

/// Every function in the value names a scope of the frames that is marked
/// as captured.
pub open spec fn pins(v: ValueView, frames: Seq<FrameView>) -> bool
    decreases v,
{
    match v {
        ValueView::Function(_, _, scope) => scope < frames.len() && frames[scope as int].captured,
        ValueView::Array(values) => forall|i: int|
            0 <= i < values.len() ==> pins(#[trigger] values[i], frames),
        ValueView::Returned(inner) => pins(*inner, frames),
        _ => true,
    }
}

/// Every value of the list pins its scopes.
pub open spec fn all_pin(values: Seq<ValueView>, frames: Seq<FrameView>) -> bool {
    forall|i: int| 0 <= i < values.len() ==> pins(#[trigger] values[i], frames)
}

/// Every value that is bound in the frames pins its scopes.
pub open spec fn frames_pin(frames: Seq<FrameView>) -> bool {
    forall|i: int, name: Seq<char>|
        0 <= i < frames.len() && frames[i].vars.contains_key(name) ==> pins(
            #[trigger] frames[i].vars[name],
            frames,
        )
}

/// The value that an operation yields, if it yields one, pins its scopes.
pub open spec fn outcome_pins(outcome: OutcomeView, frames: Seq<FrameView>) -> bool {
    match outcome {
        OutcomeView::Value(v) => pins(v, frames),
        _ => true,
    }
}

/// The later frames hold every scope of the earlier ones, and no scope has
/// lost its mark.
pub open spec fn grows(earlier: Seq<FrameView>, later: Seq<FrameView>) -> bool {
    &&& earlier.len() <= later.len()
    &&& forall|i: int|
        0 <= i < earlier.len() && (#[trigger] earlier[i]).captured ==> later[i].captured
}

/// A value goes on pinning its scopes when the frames grow.
pub proof fn lemma_pins_when_grown(v: ValueView, earlier: Seq<FrameView>, later: Seq<FrameView>)
    requires
        pins(v, earlier),
        grows(earlier, later),
    ensures
        pins(v, later),
    decreases v,
{
    match v {
        ValueView::Array(values) => {
            assert forall|i: int| 0 <= i < values.len() implies pins(
                #[trigger] values[i],
                later,
            ) by {
                lemma_pins_when_grown(values[i], earlier, later);
            }
        },
        ValueView::Returned(inner) => {
            lemma_pins_when_grown(*inner, earlier, later);
        },
        ValueView::Function(_, _, scope) => {
            assert(earlier[scope as int].captured);
        },
        _ => {},
    }
}

/// A value goes on pinning its scopes when the last frame, which is not
/// captured, is released.
pub proof fn lemma_pins_when_released(v: ValueView, frames: Seq<FrameView>)
    requires
        pins(v, frames),
        frames.len() >= 1,
        !frames.last().captured,
    ensures
        pins(v, frames.drop_last()),
    decreases v,
{
    match v {
        ValueView::Array(values) => {
            assert forall|i: int| 0 <= i < values.len() implies pins(
                #[trigger] values[i],
                frames.drop_last(),
            ) by {
                lemma_pins_when_released(values[i], frames);
            }
        },
        ValueView::Returned(inner) => {
            lemma_pins_when_released(*inner, frames);
        },
        _ => {},
    }
}

/// What a scope sees of a name pins its scopes, where every bound value
/// does.
pub proof fn lemma_lookup_pins(frames: Seq<FrameView>, scope: nat, name: Seq<char>)
    requires
        frames_pin(frames),
    ensures
        match lookup(frames, scope, name) {
            Some(v) => pins(v, frames),
            None => true,
        },
    decreases scope,
{
    if scope < frames.len() && !frames[scope as int].vars.contains_key(name) {
        match frames[scope as int].parent {
            Some(p) => {
                if p < scope {
                    lemma_lookup_pins(frames, p, name);
                }
            },
            None => {},
        }
    }
}

/// Bound values go on pinning their scopes when one more value that does
/// is bound.
pub proof fn lemma_bound_pins(frames: Seq<FrameView>, scope: nat, name: Seq<char>, value: ValueView)
    requires
        frames_pin(frames),
        scope < frames.len(),
        pins(value, frames),
    ensures
        frames_pin(bound(frames, scope, name, value)),
        grows(frames, bound(frames, scope, name, value)),
{
    let after = bound(frames, scope, name, value);
    assert forall|i: int, n: Seq<char>|
        0 <= i < after.len() && after[i].vars.contains_key(n) implies pins(
        #[trigger] after[i].vars[n],
        after,
    ) by {
        if i == scope && n == name {
            lemma_pins_when_grown(value, frames, after);
        } else {
            assert(frames[i].vars.contains_key(n));
            assert(after[i].vars[n] == frames[i].vars[n]);
            lemma_pins_when_grown(frames[i].vars[n], frames, after);
        }
    }
}

/// Bound values go on pinning their scopes when a value that does is
/// declared.
pub proof fn lemma_declared_pins(
    frames: Seq<FrameView>,
    scope: nat,
    name: Seq<char>,
    value: ValueView,
)
    requires
        frames_pin(frames),
        scope < frames.len(),
        pins(value, frames),
    ensures
        frames_pin(declared(frames, scope, name, value)),
        grows(frames, declared(frames, scope, name, value)),
{
    if !(value is Void) {
        lemma_bound_pins(frames, scope, name, value);
    }
}

/// Bound values go on pinning their scopes when a value that does is
/// assigned.
pub proof fn lemma_assigned_pins(
    frames: Seq<FrameView>,
    scope: nat,
    name: Seq<char>,
    value: ValueView,
)
    requires
        frames_pin(frames),
        pins(value, frames),
    ensures
        frames_pin(assigned(frames, scope, name, value)),
        grows(frames, assigned(frames, scope, name, value)),
{
    lemma_owner(frames, scope, name);
    match owner(frames, scope, name) {
        Some(f) => {
            lemma_bound_pins(frames, f, name, value);
        },
        None => {},
    }
}

/// Bound values go on pinning their scopes when a scope is nested.
pub proof fn lemma_nested_pins(frames: Seq<FrameView>, parent: nat)
    requires
        frames_pin(frames),
    ensures
        frames_pin(nested(frames, parent)),
        grows(frames, nested(frames, parent)),
{
    let after = nested(frames, parent);
    assert forall|i: int, n: Seq<char>|
        0 <= i < after.len() && after[i].vars.contains_key(n) implies pins(
        #[trigger] after[i].vars[n],
        after,
    ) by {
        if i < frames.len() {
            assert(after[i] == frames[i]);
            lemma_pins_when_grown(frames[i].vars[n], frames, after);
        }
    }
}

/// Bound values go on pinning their scopes when a scope is captured.
pub proof fn lemma_captured_pins(frames: Seq<FrameView>, scope: nat)
    requires
        frames_pin(frames),
        scope < frames.len(),
    ensures
        frames_pin(captured_at(frames, scope)),
        grows(frames, captured_at(frames, scope)),
{
    let after = captured_at(frames, scope);
    assert forall|i: int, n: Seq<char>|
        0 <= i < after.len() && after[i].vars.contains_key(n) implies pins(
        #[trigger] after[i].vars[n],
        after,
    ) by {
        assert(after[i].vars == frames[i].vars);
        lemma_pins_when_grown(frames[i].vars[n], frames, after);
    }
}

/// Bound values go on pinning their scopes when a scope is released.
pub proof fn lemma_released_pins(frames: Seq<FrameView>, scope: nat)
    requires
        frames_pin(frames),
    ensures
        frames_pin(released(frames, scope)),
{
    let after = released(frames, scope);
    if after != frames {
        assert forall|i: int, n: Seq<char>|
            0 <= i < after.len() && after[i].vars.contains_key(n) implies pins(
            #[trigger] after[i].vars[n],
            after,
        ) by {
            assert(after[i] == frames[i]);
            lemma_pins_when_released(frames[i].vars[n], frames);
        }
    }
}

/// A value goes on pinning its scopes when a scope is released.
pub proof fn lemma_pins_after_release(v: ValueView, frames: Seq<FrameView>, scope: nat)
    requires
        pins(v, frames),
    ensures
        pins(v, released(frames, scope)),
{
    if released(frames, scope) != frames {
        lemma_pins_when_released(v, frames);
    }
}

/// Bound values, and any value that does, go on pinning their scopes when
/// the frames are trimmed.
pub proof fn lemma_trimmed_pins(frames: Seq<FrameView>, base: nat)
    requires
        frames_pin(frames),
    ensures
        frames_pin(trimmed(frames, base)),
    decreases frames.len(),
{
    if frames.len() > base && frames.len() > 1 && !frames.last().captured {
        let shorter = frames.drop_last();
        assert(shorter == released(frames, (frames.len() - 1) as nat));
        lemma_released_pins(frames, (frames.len() - 1) as nat);
        lemma_trimmed_pins(shorter, base);
    }
}

/// What an operation yields pins its scopes where its operands do: an
/// operator yields no function, and an element of a value that pins its
/// scopes pins its own.
pub proof fn lemma_outcomes_pin(
    token: TokenView,
    left: ValueView,
    right: ValueView,
    frames: Seq<FrameView>,
)
    requires
        pins(left, frames),
        pins(right, frames),
    ensures
        outcome_pins(prefix_result(token, right), frames),
        outcome_pins(infix_result(token, left, right), frames),
        outcome_pins(index_result(token, left, right), frames),
{
}

/// What `len` yields pins its scopes: it is no function.
pub proof fn lemma_length_pins(args: Seq<ValueView>, pos: Position, frames: Seq<FrameView>)
    ensures
        outcome_pins(length_result(args, pos), frames),
{
}

} // verus!
