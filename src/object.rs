use vstd::prelude::*;
use std::rc::Rc;
use crate::lox_class::LoxClass;
use crate::lox_function::LoxFunction;

verus! {

/// The number type of the language. The evaluator is written against this
/// interface, so that the arithmetic itself (double precision in the
/// language's definition) is supplied by the embedding program.
pub trait Numeric: Sized + Copy {
    /// The number that a numeric literal's text (digits, optionally
    /// followed by `.` and digits) denotes.
    fn from_literal(text: &String) -> Self;

    fn plus(self, other: Self) -> Self;

    fn minus(self, other: Self) -> Self;

    fn times(self, other: Self) -> Self;

    fn divide(self, other: Self) -> Self;

    fn negate(self) -> Self;

    fn greater(self, other: Self) -> bool;

    fn greater_equal(self, other: Self) -> bool;

    fn less(self, other: Self) -> bool;

    fn less_equal(self, other: Self) -> bool;

    /// Equality as the language's `==` sees it (within a small tolerance).
    fn approx_eq(self, other: Self) -> bool;

    /// The canonical decimal text of the number.
    fn text(self) -> String;
}

/// A runtime value.
///
/// Classes are immutable once declared and shared by reference count;
/// instances are mutable and live in the interpreter's instance store,
/// so a value names an instance by its index there.
#[allow(non_camel_case_types)]
pub enum Object<N> {
    STRING(String),
    NUMBER(N),
    BOOL(bool),
    NIL,
    Function(LoxFunction),
    Class(Rc<LoxClass>),
    Instance(usize),
}

/// Truthiness: `nil` and `false` are falsy, every other value is truthy.
pub open spec fn truthy<N>(o: Object<N>) -> bool {
    match o {
        Object::NIL => false,
        Object::BOOL(b) => b,
        _ => true,
    }
}

impl<N: Numeric> Object<N> {
    /// The value under the truthiness rule.
    pub fn to_bool(&self) -> (r: bool)
        ensures
            r == truthy(*self),
    {
        match self {
            Object::NIL => false,
            Object::BOOL(b) => *b,
            _ => true,
        }
    }

    /// A copy of this value; instances and classes stay shared.
    pub fn duplicate(&self) -> (r: Object<N>)
        ensures
            r == *self,
    {
        match self {
            Object::STRING(s) => Object::STRING(s.clone()),
            Object::NUMBER(n) => Object::NUMBER(*n),
            Object::BOOL(b) => Object::BOOL(*b),
            Object::NIL => Object::NIL,
            Object::Function(f) => Object::Function(f.duplicate()),
            Object::Class(c) => Object::Class(Rc::clone(c)),
            Object::Instance(i) => Object::Instance(*i),
        }
    }
}

} // verus!
