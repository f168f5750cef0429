//! The scopes of a running program: frames of bindings, each with a parent,
//! kept together in one store and named by their index in it.
//!
//! A function value names the scope in which it was made. Any number of
//! functions, and any number of inner scopes, may name the same scope; what
//! one of them assigns there, all of them see.
//!
//! A scope is released when the call, the branch or the block that it was
//! made for has ended, unless a function was made in it: such a scope is
//! marked as captured and stays for as long as the store. Only the last
//! scope of the store is ever released, so that the scopes around a scope
//! that stays stay too.

use vstd::prelude::*;
use std::rc::Rc;
use crate::shared::share;
use crate::text::str_equal;
use crate::value::{Builtin, Value, ValueView};

verus! {

/// A name bound to a value.
#[derive(Debug, PartialEq)]
pub struct Binding {
    name: String,
    value: Rc<Value>,
}

/// A frame: the bindings of one scope, the scope around it, and whether a
/// function was made in it.
#[derive(Debug, PartialEq)]
pub struct Frame {
    bindings: Vec<Binding>,
    parent: Option<usize>,
    captured: bool,
}

/// A frame as specifications see it: a map from names to values, the index
/// of the parent frame, and whether a function was made in the scope.
pub struct FrameView {
    pub vars: Map<Seq<char>, ValueView>,
    pub parent: Option<nat>,
    pub captured: bool,
}

/// The index of the first binding of `name`, if there is one.
spec fn find(bindings: Seq<Binding>, name: Seq<char>) -> Option<int>
    decreases bindings.len(),
{
    if bindings.len() == 0 {
        None
    } else if bindings[0].name@ == name {
        Some(0)
    } else {
        match find(bindings.drop_first(), name) {
            Some(i) => Some(i + 1),
            None => None,
        }
    }
}

/// What `find` yields is the index of a binding of the name, and `None`
/// means that no binding has the name.
proof fn lemma_find(bindings: Seq<Binding>, name: Seq<char>)
    ensures
        match find(bindings, name) {
            Some(i) => 0 <= i < bindings.len() && bindings[i].name@ == name && forall|j: int|
                0 <= j < i ==> (#[trigger] bindings[j]).name@ != name,
            None => forall|j: int| 0 <= j < bindings.len() ==> (#[trigger] bindings[j]).name@ != name,
        },
    decreases bindings.len(),
{
    if bindings.len() > 0 && bindings[0].name@ != name {
        let rest = bindings.drop_first();
        lemma_find(rest, name);
        match find(rest, name) {
            Some(i) => {
                assert forall|j: int| 0 <= j < i + 1 implies (#[trigger] bindings[j]).name@
                    != name by {
                    if j > 0 {
                        assert(bindings[j] == rest[j - 1]);
                    }
                }
            },
            None => {
                assert forall|j: int| 0 <= j < bindings.len() implies (#[trigger] bindings[j]).name@
                    != name by {
                    if j > 0 {
                        assert(bindings[j] == rest[j - 1]);
                    }
                }
            },
        }
    }
}

/// An index at which `name` is bound, before which it is not, is what
/// `find` yields.
proof fn lemma_find_is(bindings: Seq<Binding>, name: Seq<char>, i: int)
    requires
        0 <= i < bindings.len(),
        bindings[i].name@ == name,
        forall|j: int| 0 <= j < i ==> (#[trigger] bindings[j]).name@ != name,
    ensures
        find(bindings, name) == Some(i),
{
    lemma_find(bindings, name);
}

/// A name that no binding has is not found.
proof fn lemma_find_none(bindings: Seq<Binding>, name: Seq<char>)
    requires
        forall|j: int| 0 <= j < bindings.len() ==> (#[trigger] bindings[j]).name@ != name,
    ensures
        find(bindings, name) is None,
{
    lemma_find(bindings, name);
}

/// The map that a list of bindings stands for: each name that occurs, bound
/// to the value of its first binding.
spec fn vars_of(bindings: Seq<Binding>) -> Map<Seq<char>, ValueView> {
    Map::new(
        |name: Seq<char>| find(bindings, name) is Some,
        |name: Seq<char>| bindings[find(bindings, name)->0].value@,
    )
}

impl View for Frame {
    type V = FrameView;

    closed spec fn view(&self) -> FrameView {
        FrameView {
            vars: vars_of(self.bindings@),
            parent: match self.parent {
                Some(p) => Some(p as nat),
                None => None,
            },
            captured: self.captured,
        }
    }
}

/// The value that `name` stands for in the scope `scope`: that of the
/// nearest frame, from `scope` outwards, that binds the name.
pub open spec fn lookup(frames: Seq<FrameView>, scope: nat, name: Seq<char>) -> Option<ValueView>
    decreases scope,
{
    if scope >= frames.len() {
        None
    } else if frames[scope as int].vars.contains_key(name) {
        Some(frames[scope as int].vars[name])
    } else {
        match frames[scope as int].parent {
            Some(p) => if p < scope {
                lookup(frames, p, name)
            } else {
                None
            },
            None => None,
        }
    }
}

/// The nearest frame, from `scope` outwards, that binds `name`.
pub open spec fn owner(frames: Seq<FrameView>, scope: nat, name: Seq<char>) -> Option<nat>
    decreases scope,
{
    if scope >= frames.len() {
        None
    } else if frames[scope as int].vars.contains_key(name) {
        Some(scope)
    } else {
        match frames[scope as int].parent {
            Some(p) => if p < scope {
                owner(frames, p, name)
            } else {
                None
            },
            None => None,
        }
    }
}

/// The frame that binds a name for a scope is one of the frames, at or
/// around the scope, and it holds the name: what the scope sees of the
/// name is what that frame binds it to. Where no frame binds the name, the
/// scope sees nothing of it.
pub proof fn lemma_owner(frames: Seq<FrameView>, scope: nat, name: Seq<char>)
    ensures
        match owner(frames, scope, name) {
            Some(f) => f <= scope && f < frames.len() && frames[f as int].vars.contains_key(name)
                && lookup(frames, scope, name) == Some(frames[f as int].vars[name]),
            None => lookup(frames, scope, name) is None,
        },
    decreases scope,
{
    if scope < frames.len() && !frames[scope as int].vars.contains_key(name) {
        match frames[scope as int].parent {
            Some(p) => {
                if p < scope {
                    lemma_owner(frames, p, name);
                }
            },
            None => {},
        }
    }
}

/// The frames with `name` bound to `value` in the frame `scope`.
pub open spec fn bound(frames: Seq<FrameView>, scope: nat, name: Seq<char>, value: ValueView) -> Seq<
    FrameView,
>
    recommends
        scope < frames.len(),
{
    frames.update(
        scope as int,
        FrameView {
            vars: frames[scope as int].vars.insert(name, value),
            parent: frames[scope as int].parent,
            captured: frames[scope as int].captured,
        },
    )
}

/// The frames after the declaration of `name` as `value` in the scope
/// `scope`: the frame binds the name to the value, unless the value is
/// `Void`, which is not stored.
pub open spec fn declared(frames: Seq<FrameView>, scope: nat, name: Seq<char>, value: ValueView) -> Seq<
    FrameView,
>
    recommends
        scope < frames.len(),
{
    if value is Void {
        frames
    } else {
        bound(frames, scope, name, value)
    }
}

/// The frames with a new, empty frame inside the scope `parent` at the end.
pub open spec fn nested(frames: Seq<FrameView>, parent: nat) -> Seq<FrameView> {
    frames.push(FrameView { vars: Map::empty(), parent: Some(parent), captured: false })
}

/// The frames with the frame `scope` marked as captured.
pub open spec fn captured_at(frames: Seq<FrameView>, scope: nat) -> Seq<FrameView>
    recommends
        scope < frames.len(),
{
    frames.update(
        scope as int,
        FrameView {
            vars: frames[scope as int].vars,
            parent: frames[scope as int].parent,
            captured: true,
        },
    )
}

/// The frames after the release of the scope `scope`: without it, if it is
/// the last frame, not the global one, and not captured; else as they are.
pub open spec fn released(frames: Seq<FrameView>, scope: nat) -> Seq<FrameView> {
    if 0 < scope && scope + 1 == frames.len() && !frames[scope as int].captured {
        frames.drop_last()
    } else {
        frames
    }
}

/// The frames without those at the end that are not captured, down to
/// `base` frames at the least.
pub open spec fn trimmed(frames: Seq<FrameView>, base: nat) -> Seq<FrameView>
    decreases frames.len(),
{
    if frames.len() > base && frames.len() > 1 && !frames.last().captured {
        trimmed(frames.drop_last(), base)
    } else {
        frames
    }
}

/// The frames after the assignment of `value` to `name` from the scope
/// `scope`: the nearest frame that binds the name binds it to `value`; if
/// none does, nothing changes.
pub open spec fn assigned(frames: Seq<FrameView>, scope: nat, name: Seq<char>, value: ValueView) -> Seq<
    FrameView,
> {
    match owner(frames, scope, name) {
        Some(f) => bound(frames, f, name, value),
        None => frames,
    }
}

/// The parent of every frame comes before the frame: the scopes form a
/// tree, and a walk outwards ends.
pub open spec fn frames_ok(frames: Seq<FrameView>) -> bool {
    &&& frames.len() >= 1
    &&& forall|i: int|
        0 <= i < frames.len() ==> match (#[trigger] frames[i]).parent {
            Some(p) => p < i,
            None => true,
        }
}

/// The bindings that a new global frame holds: the native functions under
/// their names.
pub open spec fn builtins() -> Map<Seq<char>, ValueView> {
    Map::<Seq<char>, ValueView>::empty().insert("print"@, ValueView::Builtin(Builtin::Print)).insert(
        "println"@,
        ValueView::Builtin(Builtin::Println),
    ).insert("len"@, ValueView::Builtin(Builtin::Len))
}

/// The scopes of a running program.
#[derive(Debug, PartialEq)]
pub struct ExecutionEnvironment {
    frames: Vec<Frame>,
}

impl View for ExecutionEnvironment {
    type V = Seq<FrameView>;

    closed spec fn view(&self) -> Seq<FrameView> {
        Seq::new(self.frames@.len(), |i: int| self.frames@[i]@)
    }
}

impl Frame {
    /// The index of the first binding of `name`, if there is one.
    fn position(&self, name: &str) -> (r: Option<usize>)
        ensures
            match r {
                Some(i) => find(self.bindings@, name@) == Some(i as int) && i < self.bindings@.len(),
                None => find(self.bindings@, name@) is None,
            },
    {
        let mut i: usize = 0;
        while i < self.bindings.len()
            invariant
                i <= self.bindings.len(),
                forall|j: int| 0 <= j < i ==> (#[trigger] self.bindings@[j]).name@ != name@,
            decreases self.bindings.len() - i,
        {
            if str_equal(self.bindings[i].name.as_str(), name) {
                proof {
                    lemma_find_is(self.bindings@, name@, i as int);
                }
                return Some(i);
            }
            i += 1;
        }
        proof {
            lemma_find_none(self.bindings@, name@);
        }
        None
    }

    /// The value that the frame binds `name` to, if it binds it.
    fn get(&self, name: &str) -> (r: Option<Rc<Value>>)
        ensures
            match r {
                Some(v) => self@.vars.contains_key(name@) && self@.vars[name@] == v@,
                None => !self@.vars.contains_key(name@),
            },
    {
        match self.position(name) {
            Some(i) => Some(share(&self.bindings[i].value)),
            None => None,
        }
    }

    /// Binds `name` to `value`, in place of an earlier binding if there is one.
    fn set(&mut self, name: String, value: Rc<Value>)
        ensures
            final(self)@.vars == old(self)@.vars.insert(name@, value@),
            final(self)@.parent == old(self)@.parent,
            final(self)@.captured == old(self)@.captured,
    {
        let ghost before = self.bindings@;
        let ghost key = name@;
        let ghost new_value = value@;
        match self.position(name.as_str()) {
            Some(i) => {
                self.bindings.set(i, Binding { name, value });
                proof {
                    let after = self.bindings@;
                    lemma_find(before, key);
                    assert forall|n: Seq<char>| find(after, n) == find(before, n) by {
                        lemma_find(before, n);
                        lemma_find(after, n);
                        match find(before, n) {
                            Some(k) => {
                                assert(after[k].name@ == n);
                                assert forall|j: int| 0 <= j < k implies (#[trigger] after[j]).name@
                                    != n by {
                                    assert(before[j].name@ != n);
                                }
                                lemma_find_is(after, n, k);
                            },
                            None => {
                                assert forall|j: int| 0 <= j < after.len() implies (
                                #[trigger] after[j]).name@ != n by {
                                    assert(before[j].name@ != n);
                                }
                                lemma_find_none(after, n);
                            },
                        }
                    }
                    assert forall|n: Seq<char>|
                        vars_of(after).contains_key(n) implies #[trigger] vars_of(after)[n]
                        == vars_of(before).insert(key, new_value)[n] by {
                        lemma_find(before, n);
                        lemma_find(after, n);
                    }
                    assert(vars_of(before).contains_key(key));
                    assert(vars_of(after) =~= vars_of(before).insert(key, new_value));
                }
            },
            None => {
                self.bindings.push(Binding { name, value });
                proof {
                    let after = self.bindings@;
                    assert forall|n: Seq<char>|
                        find(after, n) == if n == key {
                            Some(before.len() as int)
                        } else {
                            find(before, n)
                        } by {
                        lemma_find(before, n);
                        lemma_find(after, n);
                        lemma_find(before, key);
                        if n == key {
                            assert forall|j: int| 0 <= j < before.len() implies (
                            #[trigger] after[j]).name@ != n by {
                                assert(before[j].name@ != n);
                            }
                            lemma_find_is(after, n, before.len() as int);
                        } else {
                            match find(before, n) {
                                Some(k) => {
                                    assert(after[k].name@ == n);
                                    assert forall|j: int| 0 <= j < k implies (
                                    #[trigger] after[j]).name@ != n by {
                                        assert(before[j].name@ != n);
                                    }
                                    lemma_find_is(after, n, k);
                                },
                                None => {
                                    assert forall|j: int| 0 <= j < after.len() implies (
                                    #[trigger] after[j]).name@ != n by {
                                        if j < before.len() {
                                            assert(before[j].name@ != n);
                                        }
                                    }
                                    lemma_find_none(after, n);
                                },
                            }
                        }
                    }
                    assert forall|n: Seq<char>|
                        vars_of(after).contains_key(n) implies #[trigger] vars_of(after)[n]
                        == vars_of(before).insert(key, new_value)[n] by {
                        lemma_find(before, n);
                        lemma_find(after, n);
                    }
                    assert(vars_of(after) =~= vars_of(before).insert(key, new_value));
                }
            },
        }
    }
}

/// Binds the native functions under their names in `frame`.
pub fn register_builtins(frame: &mut Frame)
    ensures
        final(frame)@.vars == old(frame)@.vars.insert(
            "print"@,
            ValueView::Builtin(Builtin::Print),
        ).insert("println"@, ValueView::Builtin(Builtin::Println)).insert(
            "len"@,
            ValueView::Builtin(Builtin::Len),
        ),
        final(frame)@.parent == old(frame)@.parent,
        final(frame)@.captured == old(frame)@.captured,
{
    frame.set("print".to_owned(), Value::new_builtin(Builtin::Print));
    frame.set("println".to_owned(), Value::new_builtin(Builtin::Println));
    frame.set("len".to_owned(), Value::new_builtin(Builtin::Len));
}

impl ExecutionEnvironment {
    /// The store is well formed: it has a global frame, and every frame's
    /// parent comes before it.
    pub open spec fn wf(&self) -> bool {
        frames_ok(self@)
    }

    /// A store with the global frame alone, which binds the native
    /// functions. The global scope is scope 0.
    pub fn new_global() -> (r: Self)
        ensures
            r.wf(),
            r@.len() == 1,
            r@[0].vars == builtins(),
            r@[0].parent is None,
            !r@[0].captured,
    {
        let mut global = Frame { bindings: Vec::new(), parent: None, captured: false };
        assert(vars_of(global.bindings@) =~= Map::<Seq<char>, ValueView>::empty());
        register_builtins(&mut global);
        let mut frames: Vec<Frame> = Vec::new();
        frames.push(global);
        let r = ExecutionEnvironment { frames };
        assert(r@[0] == global@);
        r
    }

    /// How many scopes there are.
    pub fn len(&self) -> (r: usize)
        ensures
            r == self@.len(),
    {
        self.frames.len()
    }

    /// A new, empty scope inside the scope `parent`. Returns its index.
    pub fn new_local(&mut self, parent: usize) -> (r: usize)
        requires
            old(self).wf(),
            parent < old(self)@.len(),
        ensures
            final(self).wf(),
            r == old(self)@.len(),
            final(self)@ == nested(old(self)@, parent as nat),
    {
        let frame = Frame { bindings: Vec::new(), parent: Some(parent), captured: false };
        assert(vars_of(frame.bindings@) =~= Map::<Seq<char>, ValueView>::empty());
        let r = self.frames.len();
        self.frames.push(frame);
        assert(self@ =~= nested(old(self)@, parent as nat));
        r
    }

    /// Marks the scope `scope` as captured: a function was made in it, so
    /// that it is never released.
    pub fn capture(&mut self, scope: usize)
        requires
            old(self).wf(),
            scope < old(self)@.len(),
        ensures
            final(self).wf(),
            final(self)@ == captured_at(old(self)@, scope as nat),
    {
        let ghost before = self@;
        let mut frame = Frame { bindings: Vec::new(), parent: None, captured: false };
        std::mem::swap(&mut frame, &mut self.frames[scope]);
        frame.captured = true;
        std::mem::swap(&mut frame, &mut self.frames[scope]);
        assert(self@ =~= captured_at(before, scope as nat));
    }

    /// Releases the scope `scope` if it is the last one, not the global
    /// one, and not captured.
    pub fn release(&mut self, scope: usize)
        requires
            old(self).wf(),
        ensures
            final(self).wf(),
            final(self)@ == released(old(self)@, scope as nat),
    {
        let n = self.frames.len();
        if 0 < scope && scope < n && scope + 1 == n && !self.frames[scope].captured {
            assert(self@[scope as int] == self.frames@[scope as int]@);
            self.frames.pop();
            assert(self@ =~= old(self)@.drop_last());
        } else {
            if scope < n {
                assert(self@[scope as int] == self.frames@[scope as int]@);
            }
        }
    }

    /// Releases the scopes at the end of the store that are not captured,
    /// down to `base` scopes at the least.
    pub fn trim(&mut self, base: usize)
        requires
            old(self).wf(),
        ensures
            final(self).wf(),
            final(self)@ == trimmed(old(self)@, base as nat),
    {
        loop
            invariant
                self.wf(),
                trimmed(self@, base as nat) == trimmed(old(self)@, base as nat),
            decreases self@.len(),
        {
            let n = self.frames.len();
            if n > base && n > 1 {
                assert(self@[n - 1] == self.frames@[n - 1]@);
                if !self.frames[n - 1].captured {
                    let ghost before = self@;
                    self.frames.pop();
                    assert(self@ =~= before.drop_last());
                } else {
                    return;
                }
            } else {
                return;
            }
        }
    }

    /// The value of `name` as seen from the scope `scope`: that of the
    /// nearest binding, from `scope` outwards.
    pub fn get(&self, scope: usize, name: &str) -> (r: Option<Rc<Value>>)
        requires
            self.wf(),
        ensures
            match r {
                Some(v) => lookup(self@, scope as nat, name@) == Some(v@),
                None => lookup(self@, scope as nat, name@) is None,
            },
    {
        let mut at = scope;
        loop
            invariant
                self.wf(),
                lookup(self@, at as nat, name@) == lookup(self@, scope as nat, name@),
            decreases at,
        {
            if at >= self.frames.len() {
                return None;
            }
            assert(self@[at as int] == self.frames@[at as int]@);
            match self.frames[at].get(name) {
                Some(v) => {
                    return Some(v);
                },
                None => {},
            }
            match self.frames[at].parent {
                Some(p) => {
                    at = p;
                },
                None => {
                    return None;
                },
            }
        }
    }

    /// Binds `name` to `value` in the scope `scope` itself, whether or not
    /// a scope around it binds the name. `Void` is not stored: the result
    /// says whether the value was.
    pub fn set(&mut self, scope: usize, name: String, value: Rc<Value>) -> (stored: bool)
        requires
            old(self).wf(),
            scope < old(self)@.len(),
        ensures
            final(self).wf(),
            stored == !(value@ is Void),
            final(self)@ == declared(old(self)@, scope as nat, name@, value@),
    {
        if value.is_void() {
            return false;
        }
        let ghost before = self@;
        let ghost key = name@;
        let ghost new_value = value@;
        let mut frame = Frame { bindings: Vec::new(), parent: None, captured: false };
        std::mem::swap(&mut frame, &mut self.frames[scope]);
        frame.set(name, value);
        std::mem::swap(&mut frame, &mut self.frames[scope]);
        assert(self@ =~= bound(before, scope as nat, key, new_value));
        true
    }

    /// Assigns `value` to `name` where it is bound: in the nearest frame,
    /// from `scope` outwards, that binds the name. Returns whether there
    /// is such a frame; if there is none, nothing changes.
    pub fn assign(&mut self, scope: usize, name: &str, value: Rc<Value>) -> (r: bool)
        requires
            old(self).wf(),
        ensures
            final(self).wf(),
            r == owner(old(self)@, scope as nat, name@) is Some,
            final(self)@ == assigned(old(self)@, scope as nat, name@, value@),
    {
        let mut at = scope;
        loop
            invariant
                self.wf(),
                self@ == old(self)@,
                owner(self@, at as nat, name@) == owner(self@, scope as nat, name@),
            decreases at,
        {
            if at >= self.frames.len() {
                return false;
            }
            assert(self@[at as int] == self.frames@[at as int]@);
            match self.frames[at].position(name) {
                Some(_) => {
                    let ghost before = self@;
                    let mut frame = Frame { bindings: Vec::new(), parent: None, captured: false };
                    std::mem::swap(&mut frame, &mut self.frames[at]);
                    frame.set(name.to_owned(), value);
                    std::mem::swap(&mut frame, &mut self.frames[at]);
                    assert(self@ =~= bound(before, at as nat, name@, value@));
                    return true;
                },
                None => {},
            }
            match self.frames[at].parent {
                Some(p) => {
                    at = p;
                },
                None => {
                    return false;
                },
            }
        }
    }
}

} // verus!
