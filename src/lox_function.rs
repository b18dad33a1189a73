use vstd::prelude::*;
use std::rc::Rc;
use crate::environment::Environment;
use crate::object::{Numeric, Object};
use crate::stmt::Function;

verus! {

/// The reserved name of the receiver.
pub open spec fn this_name() -> Seq<char> {
    seq!['t', 'h', 'i', 's']
}

/// The text `this`.
pub fn this_text() -> (r: String)
    ensures
        r@ == this_name(),
{
    proof {
        reveal_strlit("this");
    }
    String::from_str("this")
}

/// A function value: its declaration, the frame it closes over, and
/// whether it is a class initializer.
pub struct LoxFunction {
    pub declaration: Rc<Function>,
    pub closure: usize,
    pub is_initializer: bool,
}

impl LoxFunction {
    pub fn new(declaration: Rc<Function>, closure: usize, is_initializer: bool) -> (r: LoxFunction)
        ensures
            r == (LoxFunction { declaration, closure, is_initializer }),
    {
        LoxFunction { declaration, closure, is_initializer }
    }

    /// A copy of this function value, sharing the declaration.
    pub fn duplicate(&self) -> (r: LoxFunction)
        ensures
            r == *self,
    {
        LoxFunction {
            declaration: Rc::clone(&self.declaration),
            closure: self.closure,
            is_initializer: self.is_initializer,
        }
    }

    /// The method bound to `instance`: the same declaration, closing over
    /// a new frame, enclosed by this closure, that binds `this` alone.
    pub fn bind<N: Numeric>(&self, env: &mut Environment<N>, instance: Object<N>) -> (r: LoxFunction)
        requires
            old(env).wf(),
            old(env).has_frame(self.closure as int),
        ensures
            final(env).wf(),
            r.declaration == self.declaration,
            r.is_initializer == self.is_initializer,
            final(env).binds_this(old(env), r.closure, self.closure, instance),
    {
        let frame = env.from_env(self.closure);
        let ghost after = *env;
        env.define(frame, this_text(), instance);
        let ghost defined = *env;
        env.capture(frame);
        proof {
            assert(env.frames@.subrange(0, frame as int) =~= old(env).frames@) by {
                assert forall|j: int| 0 <= j < frame implies env.frames@[j] == old(env).frames@[j] by {
                    assert(after.frames@.subrange(0, frame as int)[j] == old(env).frames@[j]);
                    assert(defined.frames@[j] == after.frames@[j]);
                }
            }
            assert(env.local(frame as int, this_name()) == defined.local(frame as int, this_name()));
            assert forall|other: Seq<char>| other != this_name() implies (#[trigger] env.local(frame as int, other)) is None by {
                assert(env.local(frame as int, other) == defined.local(frame as int, other));
            }
        }
        LoxFunction {
            declaration: Rc::clone(&self.declaration),
            closure: frame,
            is_initializer: self.is_initializer,
        }
    }

    /// The number of parameters.
    pub fn arity(&self) -> (r: usize)
        ensures
            r == self.declaration.params@.len(),
    {
        self.declaration.params.len()
    }
}

} // verus!
