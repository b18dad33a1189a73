//! The meaning of expressions and statements, as relations between the
//! interpreter's state before and after, and the outcome. Number results
//! are whatever the number type computes, so a relation leaves them open
//! where an operator yields a number; everything else is fixed. Each
//! relation takes a derivation: the intermediate states and outcomes, and
//! the derivations of the parts.
use vstd::prelude::*;
use std::rc::Rc;
use crate::environment::{binding_of, undefined_variable, Environment};
use crate::expr::{expr_size, exprs_size, Expr};
use crate::interpreter::{
    next_serial,
    binary_outcome, budget_spent, fails_with, literal_value, reads_variable, unary_outcome,
    unknown_operator, Interpreter, RTResult, ReturnValue, RuntimeError, RuntimeException,
};
use crate::lox_class::{init_name, method_in, LoxClass};
use crate::lox_function::{this_name, LoxFunction};
use crate::lox_instance::{missing_frame, undefined_property, LoxInstance};
use crate::object::{truthy, Object};
use crate::stmt::{stmt_size, stmts_size, Class, Stmt, While};
use crate::token::{Literals, Token, TokenType};

verus! {

/// The message of a property access on a value that is not an instance.
pub open spec fn not_instance() -> Seq<char> {
    "Only instances have properties."@
}

/// The message of an initializer whose closure binds no receiver.
pub open spec fn no_receiver() -> Seq<char> {
    "Initializer has no receiver."@
}

/// `r` is a runtime error at `token` with message `message`.
pub open spec fn unit_fails<N>(r: Result<(), RuntimeException<N>>, token: Token, message: Seq<char>) -> bool {
    r matches Err(RuntimeException::ERROR(e)) && e.token == token && e.message@ == message
}

/// `s1` is `s0` with its frame graph replaced by `frames`.
pub open spec fn with_frames<N>(s0: Interpreter<N>, frames: Environment<N>) -> Interpreter<N> {
    Interpreter { frames, ..s0 }
}

/// An outcome of a statement seen as the outcome of an expression-free step.
pub open spec fn as_unit<N>(r: RTResult<N>) -> Result<(), RuntimeException<N>> {
    match r {
        Ok(_) => Ok(()),
        Err(x) => Err(x),
    }
}

/// A runtime error moved into the evaluation channel.
pub open spec fn lifted_error<N>(r: Result<Object<N>, RuntimeError>) -> RTResult<N> {
    match r {
        Ok(v) => Ok(v),
        Err(e) => Err(RuntimeException::ERROR(e)),
    }
}

/// `text` is how `print` writes `v` in state `s`; a number's text is the
/// number type's.
pub open spec fn display_text<N>(s: Interpreter<N>, v: Object<N>, text: Seq<char>) -> bool {
    match v {
        Object::NUMBER(_) => true,
        Object::STRING(x) => text == x@,
        Object::BOOL(b) => text == (if b { "true"@ } else { "false"@ }),
        Object::NIL => text == "nil"@,
        Object::Function(f) => text == "<fn "@ + f.declaration.name.lexeme@ + ">"@,
        Object::Class(c) => text == c.name@,
        Object::Instance(i) => text == (if i < s.instances@.len() {
            s.instances@[i as int].class.name@
        } else {
            Seq::empty()
        }) + " instance"@,
    }
}

/// Reading property `name` of instance `i` in `s0`, giving `s1` and `r`.
pub open spec fn get_property<N>(s0: Interpreter<N>, i: usize, name: Token, s1: Interpreter<N>, r: RTResult<N>) -> bool {
    let inst = s0.instances@[i as int];
    match binding_of(inst.fields@, name.lexeme@) {
        Some(v) => s1 == s0 && r == Ok::<Object<N>, RuntimeException<N>>(v),
        None => match method_in(inst.class.methods@, name.lexeme@) {
            Some(m) => if s0.frames.has_frame(m.closure as int) {
                s1 == with_frames(s0, s1.frames) && (r matches Ok(Object::Function(b)) && s1.frames.binds_this(
                    &s0.frames,
                    b.closure,
                    m.closure,
                    Object::Instance(i),
                ) && b.declaration == m.declaration && b.is_initializer == m.is_initializer)
            } else {
                s1 == s0 && fails_with(r, name, missing_frame())
            },
            None => s1 == s0 && fails_with(r, name, undefined_property(name.lexeme@)),
        },
    }
}

/// Writing field `name` of instance `i` in `s0` to `v`, giving `s1`.
pub open spec fn sets_field<N>(s0: Interpreter<N>, i: usize, name: Token, v: Object<N>, s1: Interpreter<N>) -> bool {
    &&& s1.instances@.len() == s0.instances@.len()
    &&& forall|j: int| 0 <= j < s1.instances@.len() && j != i ==> #[trigger] s1.instances@[j] == s0.instances@[j]
    &&& s1.instances@[i as int].class == s0.instances@[i as int].class
    &&& binding_of(s1.instances@[i as int].fields@, name.lexeme@) == Some(v)
    &&& forall|other: Seq<char>| other != name.lexeme@ ==> #[trigger] binding_of(s1.instances@[i as int].fields@, other)
        == binding_of(s0.instances@[i as int].fields@, other)
    &&& s1 == Interpreter { instances: s1.instances, ..s0 }
}

/// Writing variable `name` to `v` in `s0`, giving `s1` and `r`: through its
/// recorded distance, else searching outward from the global frame.
pub open spec fn assigns<N>(s0: Interpreter<N>, name: Token, v: Object<N>, s1: Interpreter<N>, r: RTResult<N>) -> bool {
    let target = if s0.locals@.contains_key(name.id) {
        s0.frames.ancestor_of(s0.environment as int, s0.locals@[name.id] as nat)
    } else {
        s0.frames.holder_of(s0.globals as int, name.lexeme@)
    };
    match target {
        Some(a) => r == Ok::<Object<N>, RuntimeException<N>>(v) && s1 == with_frames(s0, s1.frames)
            && s1.frames.defines(&s0.frames, a, name.lexeme@, v),
        None => s1 == s0 && fails_with(r, name, undefined_variable(name.lexeme@)),
    }
}


/// A derivation: the intermediate states, outcomes and other values a
/// step went through, and the derivations of its parts.
pub struct Trace<N> {
    pub states: Seq<Interpreter<N>>,
    pub values: Seq<RTResult<N>>,
    pub units: Seq<Result<(), RuntimeException<N>>>,
    pub lists: Seq<Result<Seq<Object<N>>, RuntimeException<N>>>,
    pub envs: Seq<Environment<N>>,
    pub nums: Seq<usize>,
    pub outs: Seq<Result<(), RuntimeError>>,
    pub kids: Seq<Trace<N>>,
}

/// Evaluation of expression `e` from state `s0` ends in state `s1` with
/// outcome `r`, by derivation `t`.
pub open spec fn eval_rel<N>(s0: Interpreter<N>, e: Expr, s1: Interpreter<N>, r: RTResult<N>, t: Trace<N>) -> bool
    decreases s0.steps_left, 2nat, expr_size(e),
{
    let m = t.states[0];
    let x = t.values[0];
    match e {
        Expr::Literal(l) => s1 == s0 && r is Ok && (literal_value::<N>(l.value) matches Some(v) ==> r
            == Ok::<Object<N>, RuntimeException<N>>(v)) && (l.value is NUMBER ==> r matches Ok(
            Object::NUMBER(_),
        )),
        Expr::Grouping(g) => eval_rel(s0, *g.expression, s1, r, t),
        Expr::Variable(v) => s1 == s0 && reads_variable(s0.variable_value(v.name), v.name, r),
        Expr::This(th) => s1 == s0 && reads_variable(s0.variable_value(th.keyword), th.keyword, r),
        Expr::Unary(u) => eval_rel(s0, *u.right, m, x, t.kids[0]) && s1 == m && match x {
            Ok(v) => unary_outcome(u.operator, v, r),
            Err(z) => r == Err::<Object<N>, RuntimeException<N>>(z),
        },
        Expr::Binary(b) => m.steps_left <= s0.steps_left && eval_rel(s0, *b.left, m, x, t.kids[0]) && match x {
            Err(z) => s1 == m && r == Err::<Object<N>, RuntimeException<N>>(z),
            Ok(lv) => eval_rel(m, *b.right, s1, t.values[1], t.kids[1]) && match t.values[1] {
                Err(z) => r == Err::<Object<N>, RuntimeException<N>>(z),
                Ok(rv) => binary_outcome(b.operator, lv, rv, r),
            },
        },
        Expr::Assign(a) => eval_rel(s0, *a.value, m, x, t.kids[0]) && match x {
            Err(z) => s1 == m && r == Err::<Object<N>, RuntimeException<N>>(z),
            Ok(v) => assigns(m, a.name, v, s1, r),
        },
        Expr::Logical(l) => m.steps_left <= s0.steps_left && eval_rel(s0, *l.left, m, x, t.kids[0]) && match x {
            Err(z) => s1 == m && r == Err::<Object<N>, RuntimeException<N>>(z),
            Ok(lv) => if !(l.operator.token_type == TokenType::OR || l.operator.token_type == TokenType::AND) {
                s1 == m && fails_with(r, l.operator, unknown_operator())
            } else if (l.operator.token_type == TokenType::OR && truthy(lv)) || (l.operator.token_type
                == TokenType::AND && !truthy(lv)) {
                s1 == m && r == Ok::<Object<N>, RuntimeException<N>>(lv)
            } else {
                eval_rel(m, *l.right, s1, r, t.kids[1])
            },
        },
        Expr::Call(c) => m.steps_left <= s0.steps_left && eval_rel(s0, *c.callee, m, x, t.kids[0]) && match x {
            Err(z) => s1 == m && r == Err::<Object<N>, RuntimeException<N>>(z),
            Ok(callee) => {
                let m2 = t.states[1];
                let y = t.lists[0];
                m2.steps_left <= m.steps_left && args_rel(m, c.arguments@, m2, y, t.kids[1]) && match y {
                    Err(z) => s1 == m2 && r == Err::<Object<N>, RuntimeException<N>>(z),
                    Ok(vals) => call_rel(m2, callee, vals, c.paren, s1, r, t.kids[2]),
                }
            },
        },
        Expr::Get(g) => eval_rel(s0, *g.object, m, x, t.kids[0]) && match x {
            Err(z) => s1 == m && r == Err::<Object<N>, RuntimeException<N>>(z),
            Ok(Object::Instance(i)) => if i < m.instances@.len() {
                get_property(m, i, g.name, s1, r)
            } else {
                s1 == m && fails_with(r, g.name, not_instance())
            },
            Ok(_) => s1 == m && fails_with(r, g.name, not_instance()),
        },
        Expr::SetProperty(p) => m.steps_left <= s0.steps_left && eval_rel(s0, *p.object, m, x, t.kids[0]) && match x {
            Err(z) => s1 == m && r == Err::<Object<N>, RuntimeException<N>>(z),
            Ok(Object::Instance(i)) => {
                let m2 = t.states[1];
                let y = t.values[1];
                eval_rel(m, *p.value, m2, y, t.kids[1]) && match y {
                    Err(z) => s1 == m2 && r == Err::<Object<N>, RuntimeException<N>>(z),
                    Ok(v) => if i < m2.instances@.len() {
                        sets_field(m2, i, p.name, v, s1) && r == Ok::<Object<N>, RuntimeException<N>>(Object::NIL)
                    } else {
                        s1 == m2 && fails_with(r, p.name, not_instance())
                    },
                }
            },
            Ok(_) => s1 == m && fails_with(r, p.name, not_instance()),
        },
    }
}

/// Evaluation of argument expressions left to right, collecting values.
pub open spec fn args_rel<N>(s0: Interpreter<N>, es: Seq<Expr>, s1: Interpreter<N>, r: Result<Seq<Object<N>>, RuntimeException<N>>, t: Trace<N>) -> bool
    decreases s0.steps_left, 2nat, exprs_size(es) + es.len(),
{
    if es.len() == 0 {
        s1 == s0 && r == Ok::<Seq<Object<N>>, RuntimeException<N>>(Seq::empty())
    } else {
        let m = t.states[0];
        let x = t.lists[0];
        m.steps_left <= s0.steps_left && args_rel(s0, es.drop_last(), m, x, t.kids[0]) && match x {
            Err(z) => s1 == m && r == Err::<Seq<Object<N>>, RuntimeException<N>>(z),
            Ok(vs) => eval_rel(m, es.last(), s1, t.values[0], t.kids[1]) && match t.values[0] {
                Err(z) => r == Err::<Seq<Object<N>>, RuntimeException<N>>(z),
                Ok(v) => r == Ok::<Seq<Object<N>>, RuntimeException<N>>(vs.push(v)),
            },
        }
    }
}

/// The number of arguments a call of class `c` takes.
pub open spec fn class_arity(c: LoxClass) -> nat {
    match method_in(c.methods@, init_name()) {
        Some(m) => m.declaration.params@.len(),
        None => 0,
    }
}

/// Calling `callee` with argument values `args` from `s0`.
pub open spec fn call_rel<N>(s0: Interpreter<N>, callee: Object<N>, args: Seq<Object<N>>, paren: Token, s1: Interpreter<N>, r: RTResult<N>, t: Trace<N>) -> bool
    decreases s0.steps_left, 1nat, 0nat,
{
    match callee {
        Object::Function(f) => if args.len() != f.declaration.params@.len() {
            s1 == s0 && fails_with(r, paren, crate::interpreter::arity_mismatch(f.declaration.params@.len(), args.len()))
        } else {
            fun_rel(s0, f, args, paren, s1, r, t)
        },
        Object::Class(c) => if args.len() != class_arity(*c) {
            s1 == s0 && fails_with(r, paren, crate::interpreter::arity_mismatch(class_arity(*c), args.len()))
        } else {
            let index = s0.instances@.len();
            let sa = t.states[0];
            &&& sa == Interpreter { instances: sa.instances, ..s0 }
            &&& sa.instances@.len() == index + 1
            &&& sa.instances@.subrange(0, index as int) == s0.instances@
            &&& sa.instances@[index as int].class == c
            &&& sa.instances@[index as int].fields@.len() == 0
            &&& match method_in(c.methods@, init_name()) {
                None => s1 == sa && r == Ok::<Object<N>, RuntimeException<N>>(Object::Instance(index as usize)),
                Some(m) => if sa.frames.has_frame(m.closure as int) {
                    let sb = t.states[1];
                    let x = t.values[0];
                    sb == with_frames(sa, sb.frames) && match x {
                        Ok(Object::Function(b)) => {
                            &&& sb.frames.binds_this(&sa.frames, b.closure, m.closure, Object::Instance(index as usize))
                            &&& b.declaration == m.declaration
                            &&& b.is_initializer == m.is_initializer
                            &&& fun_rel(sb, b, args, paren, s1, t.values[1], t.kids[0])
                            &&& match t.values[1] {
                                Err(z) => r == Err::<Object<N>, RuntimeException<N>>(z),
                                Ok(_) => r == Ok::<Object<N>, RuntimeException<N>>(Object::Instance(index as usize)),
                            }
                        },
                        _ => false,
                    }
                } else {
                    s1 == sa && fails_with(r, paren, missing_frame())
                },
            }
        },
        _ => s1 == s0 && fails_with(r, paren, crate::interpreter::not_callable()),
    }
}

/// Binding parameters `ps` to `args` in order in frame `frame`.
pub open spec fn params_rel<N>(e0: Environment<N>, frame: int, ps: Seq<Token>, args: Seq<Object<N>>, e1: Environment<N>, t: Trace<N>) -> bool
    decreases ps.len(),
{
    if ps.len() == 0 {
        e1 == e0
    } else {
        params_rel(e0, frame, ps.drop_last(), args, t.envs[0], t.kids[0])
            && e1.defines(&t.envs[0], frame, ps.last().lexeme@, args[ps.len() - 1])
    }
}

/// The receiver an initializer gives back: `this` in its closure frame.
pub open spec fn receiver<N>(s: Interpreter<N>, closure: usize, paren: Token, r: RTResult<N>) -> bool {
    match s.frames.local(closure as int, this_name()) {
        Some(v) => r == Ok::<Object<N>, RuntimeException<N>>(v),
        None => fails_with(r, paren, no_receiver()),
    }
}

/// Calling function value `f` with `args` (of the right number) from `s0`:
/// one step of the budget, a new frame enclosed by the closure binding the
/// parameters, the body run there; running off the end gives `nil`, a
/// `return` gives its value, an initializer gives its receiver, and an
/// error comes back unchanged.
pub open spec fn fun_rel<N>(s0: Interpreter<N>, f: LoxFunction, args: Seq<Object<N>>, paren: Token, s1: Interpreter<N>, r: RTResult<N>, t: Trace<N>) -> bool
    decreases s0.steps_left, 0nat, 0nat,
{
    if s0.steps_left == 0 {
        s1 == s0 && fails_with(r, paren, budget_spent())
    } else {
        let sa = Interpreter { steps_left: (s0.steps_left - 1) as u64, ..s0 };
        if !sa.frames.has_frame(f.closure as int) {
            s1 == sa && fails_with(r, paren, missing_frame())
        } else {
            let e1 = t.envs[0];
            let frame = t.nums[0];
            let e2 = t.envs[1];
            let sb = t.states[0];
            let x = t.units[0];
            &&& e1.adds_frame(&sa.frames, f.closure, frame)
            &&& params_rel(e1, frame as int, f.declaration.params@, args, e2, t.kids[0])
            &&& block_rel(with_frames(sa, e2), f.declaration.body@, frame, sb, x, t.kids[1])
            &&& s1 == with_frames(sb, s1.frames)
            &&& s1.frames.releases(&sb.frames, frame as int)
            &&& match x {
                Ok(()) => if f.is_initializer {
                    receiver(s1, f.closure, paren, r)
                } else {
                    r == Ok::<Object<N>, RuntimeException<N>>(Object::NIL)
                },
                Err(RuntimeException::RETURN(rv)) => if f.is_initializer {
                    receiver(s1, f.closure, paren, r)
                } else {
                    r == Ok::<Object<N>, RuntimeException<N>>(rv.value)
                },
                Err(z) => r == Err::<Object<N>, RuntimeException<N>>(z),
            }
        }
    }
}

/// Running `ss` in frame `frame`, then making the previous frame current again.
pub open spec fn block_rel<N>(s0: Interpreter<N>, ss: Seq<Stmt>, frame: usize, s1: Interpreter<N>, r: Result<(), RuntimeException<N>>, t: Trace<N>) -> bool
    decreases s0.steps_left, 2nat, stmts_size(ss) + ss.len() + 2,
{
    stmts_rel(Interpreter { environment: frame, ..s0 }, ss, t.states[0], r, t.kids[0])
        && s1 == Interpreter { environment: s0.environment, ..t.states[0] }
}

/// Statements run in order; the first outcome that is not `Ok` stops them.
pub open spec fn stmts_rel<N>(s0: Interpreter<N>, ss: Seq<Stmt>, s1: Interpreter<N>, r: Result<(), RuntimeException<N>>, t: Trace<N>) -> bool
    decreases s0.steps_left, 2nat, stmts_size(ss) + ss.len() + 1,
{
    if ss.len() == 0 {
        s1 == s0 && r == Ok::<(), RuntimeException<N>>(())
    } else {
        let m = t.states[0];
        let x = t.units[0];
        m.steps_left <= s0.steps_left && stmts_rel(s0, ss.drop_last(), m, x, t.kids[0]) && match x {
            Err(z) => s1 == m && r == Err::<(), RuntimeException<N>>(z),
            Ok(()) => exec_rel(m, ss.last(), s1, r, t.kids[1]),
        }
    }
}

/// A `while` loop from `s0`: the condition, then, while it is truthy, one
/// step of the budget and the body.
pub open spec fn while_rel<N>(s0: Interpreter<N>, w: While, s1: Interpreter<N>, r: Result<(), RuntimeException<N>>, t: Trace<N>) -> bool
    decreases s0.steps_left, 2nat, expr_size(*w.condition) + stmt_size(*w.body),
{
    let m = t.states[0];
    let x = t.values[0];
    m.steps_left <= s0.steps_left && eval_rel(s0, *w.condition, m, x, t.kids[0]) && match x {
        Err(z) => s1 == m && r == Err::<(), RuntimeException<N>>(z),
        Ok(c) => if !truthy(c) {
            s1 == m && r == Ok::<(), RuntimeException<N>>(())
        } else if m.steps_left == 0 {
            s1 == m && unit_fails(r, w.token, budget_spent())
        } else {
            let m2 = t.states[1];
            let y = t.units[0];
            m2.steps_left < m.steps_left
            && exec_rel(Interpreter { steps_left: (m.steps_left - 1) as u64, ..m }, *w.body, m2, y, t.kids[1])
            && match y {
                Err(z) => s1 == m2 && r == Err::<(), RuntimeException<N>>(z),
                Ok(()) => while_rel(m2, w, s1, r, t.kids[2]),
            }
        },
    }
}

/// Execution of statement `st` from state `s0` ends in `s1` with outcome
/// `r`, by derivation `t`.
pub open spec fn exec_rel<N>(s0: Interpreter<N>, st: Stmt, s1: Interpreter<N>, r: Result<(), RuntimeException<N>>, t: Trace<N>) -> bool
    decreases s0.steps_left, 2nat, stmt_size(st),
{
    let m = t.states[0];
    let x = t.values[0];
    match st {
        Stmt::Expression(e) => eval_rel(s0, *e.expression, s1, x, t.kids[0]) && r == as_unit(x),
        Stmt::Print(p) => eval_rel(s0, *p.expression, m, x, t.kids[0]) && match x {
            Err(z) => s1 == m && r == Err::<(), RuntimeException<N>>(z),
            Ok(v) => r == Ok::<(), RuntimeException<N>>(()) && s1 == Interpreter { output: s1.output, ..m }
                && s1.output@.len() == m.output@.len() + 1
                && s1.output@.subrange(0, m.output@.len() as int) == m.output@
                && display_text(m, v, s1.output@.last()@),
        },
        Stmt::Var(v) => eval_rel(s0, *v.initializer, m, x, t.kids[0]) && match x {
            Err(z) => s1 == m && r == Err::<(), RuntimeException<N>>(z),
            Ok(val) => r == Ok::<(), RuntimeException<N>>(()) && s1 == with_frames(m, s1.frames)
                && s1.frames.defines(&m.frames, m.environment as int, v.name.lexeme@, val),
        },
        Stmt::Block(b) => {
            let e1 = t.envs[0];
            let frame = t.nums[0];
            &&& e1.adds_frame(&s0.frames, s0.environment, frame)
            &&& block_rel(with_frames(s0, e1), b.statements@, frame, m, r, t.kids[0])
            &&& s1 == with_frames(m, s1.frames)
            &&& s1.frames.releases(&m.frames, frame as int)
        },
        Stmt::If(i) => m.steps_left <= s0.steps_left && eval_rel(s0, *i.condition, m, x, t.kids[0]) && match x {
            Err(z) => s1 == m && r == Err::<(), RuntimeException<N>>(z),
            Ok(c) => if truthy(c) {
                exec_rel(m, *i.then_branch, s1, r, t.kids[1])
            } else {
                match i.else_branch {
                    Some(e) => exec_rel(m, *e, s1, r, t.kids[1]),
                    None => s1 == m && r == Ok::<(), RuntimeException<N>>(()),
                }
            },
        },
        Stmt::While(w) => while_rel(s0, w, s1, r, t),
        Stmt::Function(f) => r == Ok::<(), RuntimeException<N>>(())
            && t.envs[0].captures(&s0.frames, s0.environment as int) && s1 == with_frames(s0, s1.frames)
            && s1.frames.defines(&t.envs[0], s0.environment as int, f.name.lexeme@, Object::Function(
                LoxFunction { declaration: f, closure: s0.environment, is_initializer: false },
            )),
        Stmt::Return(rt) => eval_rel(s0, *rt.value, s1, x, t.kids[0]) && match x {
            Err(z) => r == Err::<(), RuntimeException<N>>(z),
            Ok(v) => r == Err::<(), RuntimeException<N>>(RuntimeException::RETURN(ReturnValue { value: v })),
        },
        Stmt::Class(c) => {
            &&& r == Ok::<(), RuntimeException<N>>(())
            &&& t.envs[0].captures(&s0.frames, s0.environment as int)
            &&& s1 == (Interpreter { frames: s1.frames, classes_made: next_serial(s0.classes_made), ..s0 })
            &&& (s1.frames.local(s0.environment as int, c.name.lexeme@) matches Some(Object::Class(k))
                && class_made(*k, c, s0.environment) && k.serial == s0.classes_made && s1.frames.defines(
                &t.envs[0],
                s0.environment as int,
                c.name.lexeme@,
                Object::Class(k),
            ))
        },
    }
}

/// The class that declaration `c` makes in frame `frame`.
pub open spec fn class_made(k: LoxClass, c: Class, frame: usize) -> bool {
    crate::interpreter::declares_class(k, c, frame)
}

/// Running a program's top-level statements in order; the first runtime
/// error stops the run and is the outcome.
pub open spec fn program_rel<N>(s0: Interpreter<N>, ss: Seq<Stmt>, s1: Interpreter<N>, r: Result<(), RuntimeError>, t: Trace<N>) -> bool
    decreases ss.len(),
{
    if ss.len() == 0 {
        s1 == s0 && r == Ok::<(), RuntimeError>(())
    } else {
        let m = t.states[0];
        let x = t.outs[0];
        program_rel(s0, ss.drop_last(), m, x, t.kids[0]) && match x {
            Err(e) => s1 == m && r == Err::<(), RuntimeError>(e),
            Ok(()) => exec_rel(m, ss.last(), s1, t.units[0], t.kids[1]) && match t.units[0] {
                Err(RuntimeException::ERROR(e)) => r == Err::<(), RuntimeError>(e),
                _ => r == Ok::<(), RuntimeError>(()),
            },
        }
    }
}

/// A derivation from its parts.
pub open spec fn trace<N>(
    states: Seq<Interpreter<N>>,
    values: Seq<RTResult<N>>,
    units: Seq<Result<(), RuntimeException<N>>>,
    kids: Seq<Trace<N>>,
) -> Trace<N> {
    Trace {
        states,
        values,
        units,
        lists: Seq::empty(),
        envs: Seq::empty(),
        nums: Seq::empty(),
        outs: Seq::empty(),
        kids,
    }
}

} // verus!

verus! {

/// The derivation with nothing in it.
pub open spec fn leaf<N>() -> Trace<N> {
    trace(Seq::empty(), Seq::empty(), Seq::empty(), Seq::empty())
}

pub proof fn lemma_stmt_size_positive(s: Stmt)
    ensures
        stmt_size(s) >= 1,
{
}

/// An error among the first `k` arguments is the error of all of them.
pub proof fn lemma_args_error<N>(s0: Interpreter<N>, es: Seq<Expr>, k: int, s1: Interpreter<N>, z: RuntimeException<N>, t: Trace<N>) -> (t2: Trace<N>)
    requires
        0 <= k <= es.len(),
        args_rel(s0, es.subrange(0, k), s1, Err(z), t),
        s1.steps_left <= s0.steps_left,
    ensures
        args_rel(s0, es, s1, Err(z), t2),
    decreases es.len() - k,
{
    if k < es.len() {
        let next = es.subrange(0, k + 1);
        assert(next.drop_last() =~= es.subrange(0, k));
        let tn = Trace {
            states: seq![s1],
            values: Seq::empty(),
            units: Seq::empty(),
            lists: seq![Err(z)],
            envs: Seq::empty(),
            nums: Seq::empty(),
            outs: Seq::empty(),
            kids: seq![t],
        };
        assert(args_rel(s0, next, s1, Err(z), tn));
        lemma_args_error(s0, es, k + 1, s1, z, tn)
    } else {
        assert(es.subrange(0, k) =~= es);
        t
    }
}

/// A statement that does not complete stops the statements after it.
pub proof fn lemma_stmts_stop<N>(s0: Interpreter<N>, ss: Seq<Stmt>, k: int, s1: Interpreter<N>, z: RuntimeException<N>, t: Trace<N>) -> (t2: Trace<N>)
    requires
        0 <= k <= ss.len(),
        stmts_rel(s0, ss.subrange(0, k), s1, Err(z), t),
        s1.steps_left <= s0.steps_left,
    ensures
        stmts_rel(s0, ss, s1, Err(z), t2),
    decreases ss.len() - k,
{
    if k < ss.len() {
        let next = ss.subrange(0, k + 1);
        assert(next.drop_last() =~= ss.subrange(0, k));
        let tn = trace(seq![s1], Seq::empty(), seq![Err(z)], seq![t]);
        assert(stmts_rel(s0, next, s1, Err(z), tn));
        lemma_stmts_stop(s0, ss, k + 1, s1, z, tn)
    } else {
        assert(ss.subrange(0, k) =~= ss);
        t
    }
}

/// A runtime error stops the rest of the program.
pub proof fn lemma_program_stop<N>(s0: Interpreter<N>, ss: Seq<Stmt>, k: int, s1: Interpreter<N>, e: RuntimeError, t: Trace<N>) -> (t2: Trace<N>)
    requires
        0 <= k <= ss.len(),
        program_rel(s0, ss.subrange(0, k), s1, Err(e), t),
    ensures
        program_rel(s0, ss, s1, Err(e), t2),
    decreases ss.len() - k,
{
    if k < ss.len() {
        let next = ss.subrange(0, k + 1);
        assert(next.drop_last() =~= ss.subrange(0, k));
        let tn = Trace {
            states: seq![s1],
            values: Seq::empty(),
            units: Seq::empty(),
            lists: Seq::empty(),
            envs: Seq::empty(),
            nums: Seq::empty(),
            outs: seq![Err(e)],
            kids: seq![t],
        };
        assert(program_rel(s0, next, s1, Err(e), tn));
        lemma_program_stop(s0, ss, k + 1, s1, e, tn)
    } else {
        assert(ss.subrange(0, k) =~= ss);
        t
    }
}

} // verus!

verus! {

/// Each execution of a block runs in a frame of its own: a new, empty
/// frame enclosed by the frame current before, whose index is past every
/// frame that existed, so no closure made earlier (for instance in an
/// earlier iteration of a loop) holds it.
pub proof fn lemma_block_runs_in_fresh_frame<N>(
    s0: Interpreter<N>,
    b: crate::stmt::Block,
    s1: Interpreter<N>,
    r: Result<(), RuntimeException<N>>,
    t: Trace<N>,
)
    requires
        exec_rel(s0, Stmt::Block(b), s1, r, t),
    ensures
        t.nums[0] == s0.frames.frames@.len(),
        t.envs[0].frames@[t.nums[0] as int].enclosing == Some(s0.environment),
        t.envs[0].frames@[t.nums[0] as int].values@.len() == 0,
        block_rel(with_frames(s0, t.envs[0]), b.statements@, t.nums[0], t.states[0], r, t.kids[0]),
{
}

} // verus!
