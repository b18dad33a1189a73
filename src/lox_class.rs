use vstd::prelude::*;
use crate::lox_function::LoxFunction;

verus! {

/// A class: its name and its method table. When two methods share a name,
/// the later declaration is the one found.
pub struct LoxClass {
    pub name: String,
    pub methods: Vec<(String, LoxFunction)>,
    /// Which class declaration's execution made this class; two classes
    /// are the same class exactly when their serials agree.
    pub serial: u64,
}

/// The method that `name` finds in a method table: the last entry under
/// that name.
pub open spec fn method_in(methods: Seq<(String, LoxFunction)>, name: Seq<char>) -> Option<
    LoxFunction,
>
    decreases methods.len(),
{
    if methods.len() == 0 {
        None
    } else if methods.last().0@ == name {
        Some(methods.last().1)
    } else {
        method_in(methods.drop_last(), name)
    }
}

/// The name under which a class's initializer is declared.
pub open spec fn init_name() -> Seq<char> {
    seq!['i', 'n', 'i', 't']
}

/// The text `init`.
pub fn init_text() -> (r: String)
    ensures
        r@ == init_name(),
{
    proof {
        reveal_strlit("init");
    }
    String::from_str("init")
}

impl LoxClass {
    pub fn new(name: String, methods: Vec<(String, LoxFunction)>, serial: u64) -> (r: LoxClass)
        ensures
            r.name == name,
            r.methods == methods,
            r.serial == serial,
    {
        LoxClass { name, methods, serial }
    }

    /// The method declared under `name`, if any.
    pub fn find_method(&self, name: &String) -> (r: Option<LoxFunction>)
        ensures
            r == method_in(self.methods@, name@),
    {
        let mut i = self.methods.len();
        proof {
            assert(self.methods@.subrange(0, i as int) =~= self.methods@);
        }
        while i > 0
            invariant
                i <= self.methods@.len(),
                method_in(self.methods@, name@) == method_in(self.methods@.subrange(0, i as int), name@),
            decreases i,
        {
            let ghost prefix = self.methods@.subrange(0, i as int);
            if self.methods[i - 1].0 == *name {
                return Some(self.methods[i - 1].1.duplicate());
            }
            proof {
                assert(prefix.drop_last() =~= self.methods@.subrange(0, i - 1));
            }
            i = i - 1;
        }
        None
    }

    /// The number of arguments a call of the class takes: its initializer's
    /// arity, or zero without one.
    pub fn arity(&self) -> (r: usize)
        ensures
            r == (match method_in(self.methods@, init_name()) {
                Some(f) => f.declaration.params@.len(),
                None => 0,
            }),
    {
        let init = init_text();
        match self.find_method(&init) {
            Some(f) => f.arity(),
            None => 0,
        }
    }
}

} // verus!
