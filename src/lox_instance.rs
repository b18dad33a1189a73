use vstd::prelude::*;
use std::rc::Rc;
use crate::environment::{bind_in, binding_of, find_slot, Environment};
use crate::interpreter::RuntimeError;
use crate::lox_class::{method_in, LoxClass};
use crate::object::{Numeric, Object};
use crate::token::Token;

verus! {

/// An instance of a class: the class and the instance's own fields.
pub struct LoxInstance<N> {
    pub class: Rc<LoxClass>,
    pub fields: Vec<(String, Object<N>)>,
}

/// The message of a read of a property that neither the fields nor the
/// class have.
pub open spec fn undefined_property(name: Seq<char>) -> Seq<char> {
    "Undefined property '"@ + name + "'."@
}

/// The message of a method whose closure frame is missing from the graph.
pub open spec fn missing_frame() -> Seq<char> {
    "Closure frame is missing."@
}

impl<N: Numeric> LoxInstance<N> {
    pub fn new(class: Rc<LoxClass>) -> (r: LoxInstance<N>)
        ensures
            r.class == class,
            r.fields@.len() == 0,
    {
        LoxInstance { class, fields: Vec::new() }
    }

    /// Reads property `name` of this instance, which stands at `index` in
    /// the instance store: a field if there is one, else the class's
    /// method of that name bound to the instance.
    pub fn get(&self, index: usize, env: &mut Environment<N>, name: &Token) -> (r: Result<
        Object<N>,
        RuntimeError,
    >)
        requires
            old(env).wf(),
        ensures
            final(env).wf(),
            match binding_of(self.fields@, name.lexeme@) {
                Some(v) => r == Ok::<Object<N>, RuntimeError>(v) && *final(env) == *old(env),
                None => match method_in(self.class.methods@, name.lexeme@) {
                    Some(m) => if old(env).has_frame(m.closure as int) {
                        &&& r matches Ok(Object::Function(b))
                        &&& b.declaration == m.declaration
                        &&& b.is_initializer == m.is_initializer
                        &&& final(env).binds_this(old(env), b.closure, m.closure, Object::Instance(index))
                    } else {
                        r matches Err(e) && e.token == *name && e.message@ == missing_frame() && *final(env)
                            == *old(env)
                    },
                    None => {
                        &&& r matches Err(e)
                        &&& e.token == *name
                        &&& e.message@ == undefined_property(name.lexeme@)
                        &&& *final(env) == *old(env)
                    },
                },
            },
    {
        match find_slot(&self.fields, &name.lexeme) {
            Some(i) => Ok(self.fields[i].1.duplicate()),
            None => match self.class.find_method(&name.lexeme) {
                Some(m) => {
                    if m.closure < env.frames.len() {
                        Ok(Object::Function(m.bind(env, Object::Instance(index))))
                    } else {
                        Err(RuntimeError::new(name, "Closure frame is missing."))
                    }
                },
                None => {
                    let mut message = String::from_str("Undefined property '");
                    message.append(name.lexeme.as_str());
                    message.append("'.");
                    Err(RuntimeError { token: name.duplicate(), message })
                },
            },
        }
    }

    /// Writes field `name`, creating it if absent.
    pub fn set(&mut self, name: &Token, value: Object<N>)
        ensures
            final(self).class == old(self).class,
            binding_of(final(self).fields@, name.lexeme@) == Some(value),
            forall|other: Seq<char>|
                other != name.lexeme@ ==> binding_of(final(self).fields@, other) == binding_of(
                    old(self).fields@,
                    other,
                ),
    {
        bind_in(&mut self.fields, name.lexeme.clone(), value);
    }
}

} // verus!
