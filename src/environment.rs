use vstd::prelude::*;
use crate::interpreter::RuntimeError;
use crate::object::{Numeric, Object};
use crate::token::Token;

verus! {

/// Where `name` is bound in a list of bindings: the last entry under it.
pub open spec fn slot_of<N>(vals: Seq<(String, Object<N>)>, name: Seq<char>) -> Option<int>
    decreases vals.len(),
{
    if vals.len() == 0 {
        None
    } else if vals.last().0@ == name {
        Some(vals.len() - 1)
    } else {
        slot_of(vals.drop_last(), name)
    }
}

/// The value that `name` has in a list of bindings.
pub open spec fn binding_of<N>(vals: Seq<(String, Object<N>)>, name: Seq<char>) -> Option<
    Object<N>,
> {
    match slot_of(vals, name) {
        Some(i) => Some(vals[i].1),
        None => None,
    }
}

/// The message of a read or write of a name that no frame binds.
pub open spec fn undefined_variable(name: Seq<char>) -> Seq<char> {
    "Undefined variable '"@ + name + "'."@
}

pub proof fn lemma_slot_in_range<N>(vals: Seq<(String, Object<N>)>, name: Seq<char>)
    ensures
        slot_of(vals, name) matches Some(i) ==> 0 <= i < vals.len() && vals[i].0@ == name,
    decreases vals.len(),
{
    if vals.len() > 0 && vals.last().0@ != name {
        lemma_slot_in_range(vals.drop_last(), name);
    }
}

/// Rebinding a name where it already stands leaves every name's slot as it was.
pub proof fn lemma_slot_update<N>(
    vals: Seq<(String, Object<N>)>,
    i: int,
    entry: (String, Object<N>),
    name: Seq<char>,
)
    requires
        0 <= i < vals.len(),
        vals[i].0@ == entry.0@,
    ensures
        slot_of(vals.update(i, entry), name) == slot_of(vals, name),
    decreases vals.len(),
{
    if i < vals.len() - 1 {
        assert(vals.update(i, entry).drop_last() =~= vals.drop_last().update(i, entry));
        lemma_slot_update(vals.drop_last(), i, entry, name);
    } else {
        assert(vals.update(i, entry).drop_last() =~= vals.drop_last());
    }
}

/// Binds `name` to `value` in a list of bindings: overwrites the entry
/// under it, or appends one.
pub fn bind_in<N: Numeric>(vals: &mut Vec<(String, Object<N>)>, name: String, value: Object<N>)
    ensures
        binding_of(final(vals)@, name@) == Some(value),
        forall|other: Seq<char>|
            other != name@ ==> binding_of(final(vals)@, other) == binding_of(old(vals)@, other),
{
    match find_slot(vals, &name) {
        Some(i) => {
            let ghost n = name@;
            proof {
                lemma_slot_in_range(old(vals)@, n);
            }
            let ghost entry = (name, value);
            vals.set(i, (name, value));
            proof {
                lemma_slot_update(old(vals)@, i as int, entry, n);
                assert forall|other: Seq<char>|
                    other != n implies binding_of(vals@, other) == binding_of(
                        old(vals)@,
                        other,
                    ) by {
                    lemma_slot_update(old(vals)@, i as int, entry, other);
                    lemma_slot_in_range(old(vals)@, other);
                }
            }
        },
        None => {
            let ghost n = name@;
            vals.push((name, value));
            proof {
                assert(vals@.drop_last() =~= old(vals)@);
                assert(slot_of(vals@, n) == Some(vals@.len() - 1));
                assert forall|other: Seq<char>|
                    other != n implies binding_of(vals@, other) == binding_of(
                        old(vals)@,
                        other,
                    ) by {
                    lemma_slot_in_range(old(vals)@, other);
                }
            }
        },
    }
}

/// Where `name` is bound in a list of bindings.
pub fn find_slot<N: Numeric>(vals: &Vec<(String, Object<N>)>, name: &String) -> (r: Option<usize>)
    ensures
        r matches Some(i) ==> slot_of(vals@, name@) == Some(i as int) && i < vals@.len(),
        r is None ==> slot_of(vals@, name@) is None,
{
    let mut i = vals.len();
    proof {
        assert(vals@.subrange(0, i as int) =~= vals@);
    }
    while i > 0
        invariant
            i <= vals@.len(),
            slot_of(vals@, name@) == slot_of(vals@.subrange(0, i as int), name@),
        decreases i,
    {
        let ghost prefix = vals@.subrange(0, i as int);
        if vals[i - 1].0 == *name {
            return Some(i - 1);
        }
        proof {
            assert(prefix.drop_last() =~= vals@.subrange(0, i - 1));
        }
        i = i - 1;
    }
    None
}

/// One scope frame: its bindings, the frame that encloses it, and whether
/// a function value closes over it (a captured frame is never reclaimed).
pub struct Env<N> {
    pub enclosing: Option<usize>,
    pub values: Vec<(String, Object<N>)>,
    pub captured: bool,
}

/// The graph of scope frames. Frames are named by their index; frame 0
/// is the global frame, and every other frame is enclosed by a frame of
/// a lower index, so each chain of enclosing links ends at the global
/// frame.
///
/// Frames are reclaimed in stack order: a frame that is the newest one
/// when its block or call ends, and that no function value closes over,
/// is dropped. Only a frame's children (all newer) and closures (marked
/// `captured`) can refer to it, so nothing refers to such a frame, and
/// cycles through closures keep their frames alive.
///
/// The limit of this scheme: a captured frame is never dropped. That
/// includes the frame binding `this` that each method lookup makes (the
/// bound method may be stored anywhere), so a program that looks up
/// methods in a loop grows the graph by one frame per lookup.
pub struct Environment<N> {
    pub frames: Vec<Env<N>>,
}

impl<N> Environment<N> {
    pub open spec fn wf(&self) -> bool {
        &&& self.frames@.len() >= 1
        &&& self.frames@[0].enclosing is None
        &&& forall|i: int|
            0 < i < self.frames@.len() ==> (#[trigger] self.frames@[i].enclosing matches Some(
                e,
            ) && e < i)
    }

    pub open spec fn has_frame(&self, f: int) -> bool {
        0 <= f < self.frames@.len()
    }

    /// The value of `name` in frame `f` alone.
    pub open spec fn local(&self, f: int, name: Seq<char>) -> Option<Object<N>> {
        binding_of(self.frames@[f].values@, name)
    }

    /// The frame `d` enclosing links away from frame `f`.
    pub open spec fn ancestor_of(&self, f: int, d: nat) -> Option<int>
        decreases d,
    {
        if !self.has_frame(f) {
            None
        } else if d == 0 {
            Some(f)
        } else {
            match self.frames@[f].enclosing {
                Some(e) => self.ancestor_of(e as int, (d - 1) as nat),
                None => None,
            }
        }
    }

    /// The first frame on the chain from `f` outward that binds `name`.
    pub open spec fn holder_of(&self, f: int, name: Seq<char>) -> Option<int>
        decreases f + 1,
    {
        if !self.has_frame(f) {
            None
        } else if self.local(f, name) is Some {
            Some(f)
        } else {
            match self.frames@[f].enclosing {
                Some(e) => if e < f {
                    self.holder_of(e as int, name)
                } else {
                    None
                },
                None => None,
            }
        }
    }

    /// The value of `name` seen from frame `f`: its binding in the first
    /// frame on the chain that has one.
    pub open spec fn lookup(&self, f: int, name: Seq<char>) -> Option<Object<N>> {
        match self.holder_of(f, name) {
            Some(h) => self.local(h, name),
            None => None,
        }
    }

    /// This graph is `old` with one frame added, `frame`, enclosed by
    /// `closure` and binding `this` to `instance`, and nothing else.
    pub open spec fn binds_this(&self, old: &Environment<N>, frame: usize, closure: usize, instance: Object<N>) -> bool {
        &&& frame == old.frames@.len()
        &&& self.frames@.len() == old.frames@.len() + 1
        &&& self.frames@.subrange(0, frame as int) == old.frames@
        &&& self.frames@[frame as int].enclosing == Some(closure)
        &&& self.local(frame as int, crate::lox_function::this_name()) == Some(instance)
        &&& forall|other: Seq<char>| other != crate::lox_function::this_name() ==> (#[trigger] self.local(frame as int, other)) is None
    }

    /// This graph is `old` with `name` bound to `v` in frame `f` itself,
    /// nothing else changed.
    pub open spec fn defines(&self, old: &Environment<N>, f: int, name: Seq<char>, v: Object<N>) -> bool {
        &&& self.changed_only(old, f)
        &&& self.frames@[f].captured == old.frames@[f].captured
        &&& self.local(f, name) == Some(v)
        &&& forall|other: Seq<char>| other != name ==> #[trigger] self.local(f, other) == old.local(f, other)
    }

    /// This graph is `old` with a new empty frame `r` enclosed by `env`.
    pub open spec fn adds_frame(&self, old: &Environment<N>, env: usize, r: usize) -> bool {
        &&& r == old.frames@.len()
        &&& self.frames@.len() == old.frames@.len() + 1
        &&& self.frames@.subrange(0, r as int) == old.frames@
        &&& self.frames@[r as int].enclosing == Some(env)
        &&& self.frames@[r as int].values@.len() == 0
        &&& !self.frames@[r as int].captured
    }

    /// This graph is `old` with frame `frame` marked as closed over.
    pub open spec fn captures(&self, old: &Environment<N>, frame: int) -> bool {
        &&& self.frames@.len() == old.frames@.len()
        &&& self.frames@[frame].captured
        &&& self.frames@[frame].enclosing == old.frames@[frame].enclosing
        &&& self.frames@[frame].values == old.frames@[frame].values
        &&& forall|j: int| 0 <= j < self.frames@.len() && j != frame ==> #[trigger] self.frames@[j] == old.frames@[j]
    }

    /// This graph is `old` after the end of the block or call that made
    /// `frame`: the frame is dropped if it is the newest and not closed over.
    pub open spec fn releases(&self, old: &Environment<N>, frame: int) -> bool {
        if frame > 0 && frame + 1 == old.frames@.len() && !old.frames@[frame].captured {
            self.frames@ == old.frames@.subrange(0, frame)
        } else {
            *self == *old
        }
    }

    /// Every frame but `f` is as in `old`, and `f` kept its enclosing link.
    pub open spec fn changed_only(&self, old: &Environment<N>, f: int) -> bool {
        &&& self.frames@.len() == old.frames@.len()
        &&& self.frames@[f].enclosing == old.frames@[f].enclosing
        &&& forall|j: int| 0 <= j < self.frames@.len() && j != f ==> #[trigger] self.frames@[j] == old.frames@[j]
    }
}

impl<N: Numeric> Environment<N> {
    /// A graph holding just the global frame, empty.
    pub fn new() -> (r: Environment<N>)
        ensures
            r.wf(),
            r.frames@.len() == 1,
            r.frames@[0].values@.len() == 0,
    {
        let mut frames = Vec::new();
        frames.push(Env { enclosing: None, values: Vec::new(), captured: true });
        Environment { frames }
    }

    /// Adds an empty frame enclosed by `env` and returns its index.
    pub fn from_env(&mut self, env: usize) -> (r: usize)
        requires
            old(self).wf(),
            old(self).has_frame(env as int),
        ensures
            final(self).wf(),
            r == old(self).frames@.len(),
            final(self).frames@.len() == old(self).frames@.len() + 1,
            final(self).frames@.subrange(0, r as int) == old(self).frames@,
            final(self).frames@[r as int].enclosing == Some(env),
            final(self).frames@[r as int].values@.len() == 0,
            final(self).adds_frame(old(self), env, r),
    {
        let r = self.frames.len();
        self.frames.push(Env { enclosing: Some(env), values: Vec::new(), captured: false });
        proof {
            assert(self.frames@.subrange(0, r as int) =~= old(self).frames@);
        }
        r
    }

    /// Marks `frame` as closed over by a function value.
    pub fn capture(&mut self, frame: usize)
        requires
            old(self).wf(),
            old(self).has_frame(frame as int),
        ensures
            final(self).wf(),
            final(self).frames@.len() == old(self).frames@.len(),
            final(self).frames@[frame as int].captured,
            final(self).frames@[frame as int].enclosing == old(self).frames@[frame as int].enclosing,
            final(self).frames@[frame as int].values == old(self).frames@[frame as int].values,
            forall|j: int| 0 <= j < final(self).frames@.len() && j != frame ==> #[trigger] final(self).frames@[j] == old(self).frames@[j],
            final(self).captures(old(self), frame as int),
    {
        self.frames[frame].captured = true;
        proof {
            assert forall|i: int| 0 < i < self.frames@.len() implies (
            #[trigger] self.frames@[i].enclosing matches Some(e) && e < i) by {
                assert(self.frames@[i].enclosing == old(self).frames@[i].enclosing);
            }
        }
    }

    /// Drops `frame` if it is the newest frame and nothing closes over it.
    pub fn release(&mut self, frame: usize)
        requires
            old(self).wf(),
            old(self).has_frame(frame as int),
        ensures
            final(self).wf(),
            final(self).frames@.len() >= frame,
            final(self).frames@.len() >= old(self).frames@.len() - 1,
            final(self).frames@ == old(self).frames@.subrange(0, final(self).frames@.len() as int),
            (frame > 0 && frame + 1 == old(self).frames@.len() && !old(self).frames@[frame as int].captured)
                ==> final(self).frames@.len() == frame,
            !(frame > 0 && frame + 1 == old(self).frames@.len() && !old(self).frames@[frame as int].captured)
                ==> *final(self) == *old(self),
            final(self).releases(old(self), frame as int),
    {
        if frame > 0 && frame == self.frames.len() - 1 && !self.frames[frame].captured {
            self.frames.pop();
            proof {
                assert(self.frames@ =~= old(self).frames@.subrange(0, frame as int));
            }
        } else {
            proof {
                assert(self.frames@ =~= old(self).frames@.subrange(0, self.frames@.len() as int));
            }
        }
    }

    /// The frame that encloses `frame`.
    pub fn get_enclosing(&self, frame: usize) -> (r: Option<usize>)
        requires
            self.has_frame(frame as int),
        ensures
            r == self.frames@[frame as int].enclosing,
    {
        self.frames[frame].enclosing
    }

    /// Binds `name` to `value` in `frame` itself, whether or not it was
    /// bound there before.
    pub fn define(&mut self, frame: usize, name: String, value: Object<N>)
        requires
            old(self).wf(),
            old(self).has_frame(frame as int),
        ensures
            final(self).wf(),
            final(self).defines(old(self), frame as int, name@, value),
    {
        bind_in(&mut self.frames[frame].values, name, value);
        proof {
            assert forall|i: int| 0 < i < self.frames@.len() implies (
            #[trigger] self.frames@[i].enclosing matches Some(e) && e < i) by {
                assert(self.frames@[i].enclosing == old(self).frames@[i].enclosing);
            }
        }
    }

    /// The frame `distance` enclosing links away from `frame`.
    pub fn ancestor(&self, frame: usize, distance: usize) -> (r: Option<usize>)
        requires
            self.wf(),
            self.has_frame(frame as int),
        ensures
            r matches Some(a) ==> self.ancestor_of(frame as int, distance as nat) == Some(a as int),
            r is None ==> self.ancestor_of(frame as int, distance as nat) is None,
    {
        let mut env = frame;
        let mut d = distance;
        while d > 0
            invariant
                self.wf(),
                self.has_frame(env as int),
                self.ancestor_of(frame as int, distance as nat) == self.ancestor_of(
                    env as int,
                    d as nat,
                ),
            decreases d,
        {
            match self.frames[env].enclosing {
                Some(e) => {
                    env = e;
                    d = d - 1;
                },
                None => {
                    return None;
                },
            }
        }
        Some(env)
    }

    /// The value of `name` seen from `frame`, searching outward.
    pub fn get(&self, frame: usize, name: &Token) -> (r: Result<Object<N>, RuntimeError>)
        requires
            self.wf(),
            self.has_frame(frame as int),
        ensures
            r matches Ok(v) ==> self.lookup(frame as int, name.lexeme@) == Some(v),
            r matches Err(e) ==> self.lookup(frame as int, name.lexeme@) is None && e.token
                == *name && e.message@ == undefined_variable(name.lexeme@),
    {
        match self.resolve_holder(frame, &name.lexeme) {
            Some(h) => {
                proof {
                    self.lemma_holder_binds(frame as int, name.lexeme@);
                }
                let i = find_slot(&self.frames[h].values, &name.lexeme);
                match i {
                    Some(i) => Ok(self.frames[h].values[i].1.duplicate()),
                    None => Err(undefined(name)),
                }
            },
            None => Err(undefined(name)),
        }
    }

    fn resolve_holder(&self, frame: usize, name: &String) -> (r: Option<usize>)
        requires
            self.wf(),
            self.has_frame(frame as int),
        ensures
            r matches Some(h) ==> self.holder_of(frame as int, name@) == Some(h as int),
            r is None ==> self.holder_of(frame as int, name@) is None,
    {
        let mut env = frame;
        loop
            invariant
                self.wf(),
                self.has_frame(env as int),
                self.holder_of(frame as int, name@) == self.holder_of(env as int, name@),
            decreases env,
        {
            if find_slot(&self.frames[env].values, name).is_some() {
                return Some(env);
            }
            match self.frames[env].enclosing {
                Some(e) => {
                    env = e;
                },
                None => {
                    return None;
                },
            }
        }
    }

    /// The value of `name` in the frame exactly `distance` links away.
    pub fn get_at(&self, frame: usize, distance: usize, name: &Token) -> (r: Result<
        Object<N>,
        RuntimeError,
    >)
        requires
            self.wf(),
            self.has_frame(frame as int),
        ensures
            r matches Ok(v) ==> (self.ancestor_of(frame as int, distance as nat) matches Some(a)
                && self.local(a, name.lexeme@) == Some(v)),
            r matches Err(e) ==> !(self.ancestor_of(frame as int, distance as nat) matches Some(a)
                && self.local(a, name.lexeme@) is Some) && e.token == *name && e.message@
                == undefined_variable(name.lexeme@),
    {
        match self.ancestor(frame, distance) {
            Some(a) => {
                proof {
                    self.lemma_ancestor_has_frame(frame as int, distance as nat);
                }
                match find_slot(&self.frames[a].values, &name.lexeme) {
                    Some(i) => Ok(self.frames[a].values[i].1.duplicate()),
                    None => Err(undefined(name)),
                }
            },
            None => Err(undefined(name)),
        }
    }

    /// Rebinding names moves no enclosing link, so no ancestor moves either.
    pub proof fn lemma_ancestor_kept(&self, other: &Environment<N>, f: int, d: nat)
        requires
            other.frames@.len() == self.frames@.len(),
            forall|j: int| 0 <= j < self.frames@.len() ==> (#[trigger] other.frames@[j]).enclosing == self.frames@[j].enclosing,
        ensures
            other.ancestor_of(f, d) == self.ancestor_of(f, d),
        decreases d,
    {
        if self.has_frame(f) && d > 0 {
            assert(other.frames@[f].enclosing == self.frames@[f].enclosing);
            if let Some(e) = self.frames@[f].enclosing {
                self.lemma_ancestor_kept(other, e as int, (d - 1) as nat);
            }
        }
    }

    pub proof fn lemma_ancestor_has_frame(&self, f: int, d: nat)
        ensures
            self.ancestor_of(f, d) matches Some(a) ==> self.has_frame(a),
        decreases d,
    {
        if self.has_frame(f) && d > 0 {
            if let Some(e) = self.frames@[f].enclosing {
                self.lemma_ancestor_has_frame(e as int, (d - 1) as nat);
            }
        }
    }

    pub proof fn lemma_holder_binds(&self, f: int, name: Seq<char>)
        requires
            self.wf(),
        ensures
            self.holder_of(f, name) matches Some(h) ==> self.has_frame(h) && self.local(h, name)
                is Some,
        decreases f + 1,
    {
        if self.has_frame(f) && self.local(f, name) is None {
            if let Some(e) = self.frames@[f].enclosing {
                if e < f {
                    self.lemma_holder_binds(e as int, name);
                }
            }
        }
    }

    /// Rebinds `name` in the first frame on the chain from `frame` that
    /// binds it; no frame binding it is an error, and nothing changes.
    pub fn assign(&mut self, frame: usize, name: &Token, value: Object<N>) -> (r: Result<
        Object<N>,
        RuntimeError,
    >)
        requires
            old(self).wf(),
            old(self).has_frame(frame as int),
        ensures
            final(self).wf(),
            match old(self).holder_of(frame as int, name.lexeme@) {
                Some(h) => {
                    &&& r == Ok::<Object<N>, RuntimeError>(value)
                    &&& final(self).defines(old(self), h, name.lexeme@, value)
                },
                None => {
                    &&& r matches Err(e)
                    &&& e.token == *name
                    &&& e.message@ == undefined_variable(name.lexeme@)
                    &&& *final(self) == *old(self)
                },
            },
    {
        match self.resolve_holder(frame, &name.lexeme) {
            Some(h) => {
                proof {
                    self.lemma_holder_binds(frame as int, name.lexeme@);
                }
                let result = value.duplicate();
                self.define(h, name.lexeme.clone(), value);
                Ok(result)
            },
            None => Err(undefined(name)),
        }
    }

    /// Binds `name` in the frame exactly `distance` links away from `frame`.
    pub fn assign_at(&mut self, frame: usize, distance: usize, name: &Token, value: Object<N>) -> (r:
        Result<Object<N>, RuntimeError>)
        requires
            old(self).wf(),
            old(self).has_frame(frame as int),
        ensures
            final(self).wf(),
            match old(self).ancestor_of(frame as int, distance as nat) {
                Some(a) => {
                    &&& r == Ok::<Object<N>, RuntimeError>(value)
                    &&& final(self).defines(old(self), a, name.lexeme@, value)
                },
                None => {
                    &&& r matches Err(e)
                    &&& e.token == *name
                    &&& e.message@ == undefined_variable(name.lexeme@)
                    &&& *final(self) == *old(self)
                },
            },
    {
        match self.ancestor(frame, distance) {
            Some(a) => {
                proof {
                    self.lemma_ancestor_has_frame(frame as int, distance as nat);
                }
                let result = value.duplicate();
                self.define(a, name.lexeme.clone(), value);
                Ok(result)
            },
            None => Err(undefined(name)),
        }
    }
}

/// The error for a name that no frame binds.
pub fn undefined(name: &Token) -> (r: RuntimeError)
    ensures
        r.token == *name,
        r.message@ == undefined_variable(name.lexeme@),
{
    let mut message = String::from_str("Undefined variable '");
    message.append(name.lexeme.as_str());
    message.append("'.");
    RuntimeError { token: name.duplicate(), message }
}


/// Shadowing: let `outer` bind `name` to `v`, and let a child frame of
/// `outer` be added and bind `name` to `w`. Read from the child, `name` is
/// `w`; read from `outer` (after the inner block is left), it is still `v`.
pub proof fn lemma_shadowing<N>(
    e0: Environment<N>,
    e1: Environment<N>,
    e2: Environment<N>,
    outer: usize,
    child: usize,
    name: Seq<char>,
    v: Object<N>,
    w: Object<N>,
)
    requires
        e0.wf(),
        e0.has_frame(outer as int),
        e0.local(outer as int, name) == Some(v),
        // `child` added by `from_env(outer)`
        e1.wf(),
        child == e0.frames@.len(),
        e1.frames@.len() == e0.frames@.len() + 1,
        e1.frames@.subrange(0, child as int) == e0.frames@,
        e1.frames@[child as int].enclosing == Some(outer),
        // `name` bound to `w` by `define(child, name, w)`
        e2.wf(),
        e2.changed_only(&e1, child as int),
        e2.local(child as int, name) == Some(w),
    ensures
        e2.lookup(child as int, name) == Some(w),
        e2.lookup(outer as int, name) == Some(v),
{
    assert(e2.frames@[outer as int] == e1.frames@[outer as int]);
    assert(e1.frames@.subrange(0, child as int)[outer as int] == e1.frames@[outer as int]);
}

/// Assignment needs a declaration: where no frame on the chain from `f`
/// binds `name`, `assign` fails with the undefined-variable error. Once
/// `name` is defined in `f`, assigning `w` succeeds and a later read from
/// `f` gives `w`.
pub proof fn lemma_assign_after_define<N>(
    e0: Environment<N>,
    e1: Environment<N>,
    e2: Environment<N>,
    f: usize,
    name: Seq<char>,
    v: Object<N>,
    w: Object<N>,
)
    requires
        e0.wf(),
        e0.has_frame(f as int),
        // `define(f, name, v)`
        e1.wf(),
        e1.changed_only(&e0, f as int),
        e1.local(f as int, name) == Some(v),
        // `assign(f, name, w)` on the frame that holds `name`
        e2.wf(),
        e2.changed_only(&e1, f as int),
        e2.local(f as int, name) == Some(w),
    ensures
        e1.holder_of(f as int, name) == Some(f as int),
        e2.lookup(f as int, name) == Some(w),
{
}

} // verus!
