use vstd::prelude::*;
use std::collections::HashMap;
use std::rc::Rc;
use crate::environment::{find_slot, undefined_variable, Environment};
use crate::error::{decimal, decimal_text};
use crate::expr::{expr_size, lemma_exprs_size, Expr};
use crate::lox_class::{init_name, init_text, method_in, LoxClass};
use crate::lox_function::{this_name, this_text, LoxFunction};
use crate::lox_instance::LoxInstance;
use crate::object::{truthy, Numeric, Object};
use crate::stmt::{lemma_stmts_size, stmt_size, stmts_size, Class, Function, Stmt};
use crate::semantics::with_frames;
use crate::token::{Literals, Token, TokenType};
use crate::semantics::{
    args_rel, assigns, block_rel, call_rel, display_text, eval_rel, exec_rel, fun_rel, leaf,
    lemma_args_error, lemma_program_stop, lemma_stmt_size_positive, lemma_stmts_stop, params_rel,
    program_rel, receiver, stmts_rel, trace, while_rel, Trace,
};

verus! {

/// A runtime error: the token it is reported at and a message.
pub struct RuntimeError {
    pub token: Token,
    pub message: String,
}

impl RuntimeError {
    pub fn new(token: &Token, message: &str) -> (r: RuntimeError)
        ensures
            r.token == *token,
            r.message@ == message@,
    {
        RuntimeError { token: token.duplicate(), message: String::from_str(message) }
    }
}

/// The value carried by a `return` on its way to the call that receives it.
pub struct ReturnValue<N> {
    pub value: Object<N>,
}

impl<N: Numeric> ReturnValue<N> {
    pub fn new(value: Object<N>) -> (r: ReturnValue<N>)
        ensures
            r.value == value,
    {
        ReturnValue { value }
    }
}

/// What interrupts ordinary evaluation: a runtime error, or a `return`.
#[allow(non_camel_case_types)]
pub enum RuntimeException<N> {
    ERROR(RuntimeError),
    RETURN(ReturnValue<N>),
}

impl<N: Numeric> RuntimeException<N> {
    pub fn error(token: &Token, message: &str) -> (r: RuntimeException<N>)
        ensures
            r matches RuntimeException::ERROR(e) && e.token == *token && e.message@ == message@,
    {
        RuntimeException::ERROR(RuntimeError::new(token, message))
    }

    pub fn return_v(value: Object<N>) -> (r: RuntimeException<N>)
        ensures
            r == RuntimeException::RETURN(ReturnValue { value }),
    {
        RuntimeException::RETURN(ReturnValue::new(value))
    }
}

/// The result of evaluating an expression.
pub type RTResult<N> = Result<Object<N>, RuntimeException<N>>;

/// The message of an operator whose operands must be numbers.
pub open spec fn num_error() -> Seq<char> {
    "Operands must be numbers."@
}

/// The message of a `+` whose operands are neither two numbers nor two strings.
pub open spec fn num_str_error() -> Seq<char> {
    "Operands must be two numbers or two strings."@
}

/// The message of a call of a value that is neither a function nor a class.
pub open spec fn not_callable() -> Seq<char> {
    "Can only call functions and classes."@
}

/// The message of a call with the wrong number of arguments.
pub open spec fn arity_mismatch(expected: nat, got: nat) -> Seq<char> {
    "Expected "@ + decimal(expected) + " arguments but got "@ + decimal(got) + "."@
}

/// The message of a run that has used up its step budget.
pub open spec fn budget_spent() -> Seq<char> {
    "Step budget exhausted."@
}

/// `res` is a runtime error at `token` with message `message`.
pub open spec fn fails_with<N>(res: RTResult<N>, token: Token, message: Seq<char>) -> bool {
    res matches Err(RuntimeException::ERROR(e)) && e.token == token && e.message@ == message
}

pub open spec fn both_numbers<N>(l: Object<N>, r: Object<N>) -> bool {
    l is NUMBER && r is NUMBER
}

/// Whether `==` holds between two values, where the values alone decide
/// it; `None` for two numbers, which the number type compares.
///
/// `nil` equals only `nil`; booleans, strings, instances (by identity),
/// functions (by declaration and closure) and classes (by the declaration
/// execution that made them) compare
/// within their kind; values of different kinds are unequal.
pub open spec fn equality<N>(l: Object<N>, r: Object<N>) -> Option<bool> {
    match (l, r) {
        (Object::NUMBER(_), Object::NUMBER(_)) => None,
        (Object::NIL, Object::NIL) => Some(true),
        (Object::BOOL(a), Object::BOOL(b)) => Some(a == b),
        (Object::STRING(a), Object::STRING(b)) => Some(a@ == b@),
        (Object::Instance(a), Object::Instance(b)) => Some(a == b),
        (Object::Function(f), Object::Function(g)) => Some(
            f.declaration.name.id == g.declaration.name.id && f.closure == g.closure,
        ),
        (Object::Class(a), Object::Class(b)) => Some(a.serial == b.serial),
        _ => Some(false),
    }
}

/// What a binary operator yields on two operand values.
pub open spec fn binary_outcome<N>(op: Token, l: Object<N>, r: Object<N>, res: RTResult<N>) -> bool {
    match op.token_type {
        TokenType::PLUS => match (l, r) {
            (Object::NUMBER(_), Object::NUMBER(_)) => res matches Ok(Object::NUMBER(_)),
            (Object::STRING(a), Object::STRING(b)) => res matches Ok(Object::STRING(s)) && s@ == a@ + b@,
            _ => fails_with(res, op, num_str_error()),
        },
        TokenType::MINUS | TokenType::SLASH | TokenType::STAR => if both_numbers(l, r) {
            res matches Ok(Object::NUMBER(_))
        } else {
            fails_with(res, op, num_error())
        },
        TokenType::GREATER | TokenType::GREATER_EQUAL | TokenType::LESS | TokenType::LESS_EQUAL => if both_numbers(l, r) {
            res matches Ok(Object::BOOL(_))
        } else {
            fails_with(res, op, num_error())
        },
        TokenType::EQUAL_EQUAL => match equality(l, r) {
            Some(b) => res == Ok::<Object<N>, RuntimeException<N>>(Object::BOOL(b)),
            None => res matches Ok(Object::BOOL(_)),
        },
        TokenType::BANG_EQUAL => match equality(l, r) {
            Some(b) => res == Ok::<Object<N>, RuntimeException<N>>(Object::BOOL(!b)),
            None => res matches Ok(Object::BOOL(_)),
        },
        _ => fails_with(res, op, unknown_operator()),
    }
}

/// The message of an operator token that no operator has.
pub open spec fn unknown_operator() -> Seq<char> {
    "Unknown operator."@
}

/// What a unary operator yields on its operand.
pub open spec fn unary_outcome<N>(op: Token, v: Object<N>, res: RTResult<N>) -> bool {
    match op.token_type {
        TokenType::MINUS => if v is NUMBER {
            res matches Ok(Object::NUMBER(_))
        } else {
            fails_with(res, op, num_error())
        },
        TokenType::BANG => res == Ok::<Object<N>, RuntimeException<N>>(Object::BOOL(!truthy(v))),
        _ => fails_with(res, op, unknown_operator()),
    }
}

fn error_at<N: Numeric>(token: &Token, message: &str) -> (r: RTResult<N>)
    ensures
        fails_with(r, *token, message@),
{
    Err(RuntimeException::error(token, message))
}

/// Whether a logical operator is decided by its left operand alone: `or`
/// on a truthy value, `and` on a falsy one. The left value is then the
/// result; otherwise the right operand's value is.
pub fn short_circuits<N: Numeric>(operator: TokenType, left: &Object<N>) -> (r: bool)
    ensures
        r == ((operator == TokenType::OR && truthy(*left)) || (operator == TokenType::AND
            && !truthy(*left))),
{
    match operator {
        TokenType::OR => left.to_bool(),
        TokenType::AND => !left.to_bool(),
        _ => false,
    }
}

/// Whether two values are equal under `==`.
pub fn is_equal<N: Numeric>(l: &Object<N>, r: &Object<N>) -> (b: bool)
    ensures
        equality(*l, *r) matches Some(e) ==> b == e,
{
    match (l, r) {
        (Object::NUMBER(a), Object::NUMBER(b)) => a.approx_eq(*b),
        (Object::NIL, Object::NIL) => true,
        (Object::BOOL(a), Object::BOOL(b)) => *a == *b,
        (Object::STRING(a), Object::STRING(b)) => *a == *b,
        (Object::Instance(a), Object::Instance(b)) => *a == *b,
        (Object::Function(f), Object::Function(g)) => f.declaration.name.id == g.declaration.name.id
            && f.closure == g.closure,
        (Object::Class(a), Object::Class(b)) => a.serial == b.serial,
        _ => false,
    }
}

/// Applies a binary operator to two operand values.
pub fn binary_op<N: Numeric>(op: &Token, left: Object<N>, right: Object<N>) -> (res: RTResult<N>)
    ensures
        binary_outcome(*op, left, right, res),
{
    match op.token_type {
        TokenType::PLUS => match (left, right) {
            (Object::NUMBER(l), Object::NUMBER(r)) => Ok(Object::NUMBER(l.plus(r))),
            (Object::STRING(l), Object::STRING(r)) => {
                let mut s = l;
                s.append(r.as_str());
                Ok(Object::STRING(s))
            },
            _ => error_at(op, "Operands must be two numbers or two strings."),
        },
        TokenType::MINUS => match (left, right) {
            (Object::NUMBER(l), Object::NUMBER(r)) => Ok(Object::NUMBER(l.minus(r))),
            _ => error_at(op, "Operands must be numbers."),
        },
        TokenType::SLASH => match (left, right) {
            (Object::NUMBER(l), Object::NUMBER(r)) => Ok(Object::NUMBER(l.divide(r))),
            _ => error_at(op, "Operands must be numbers."),
        },
        TokenType::STAR => match (left, right) {
            (Object::NUMBER(l), Object::NUMBER(r)) => Ok(Object::NUMBER(l.times(r))),
            _ => error_at(op, "Operands must be numbers."),
        },
        TokenType::GREATER => match (left, right) {
            (Object::NUMBER(l), Object::NUMBER(r)) => Ok(Object::BOOL(l.greater(r))),
            _ => error_at(op, "Operands must be numbers."),
        },
        TokenType::GREATER_EQUAL => match (left, right) {
            (Object::NUMBER(l), Object::NUMBER(r)) => Ok(Object::BOOL(l.greater_equal(r))),
            _ => error_at(op, "Operands must be numbers."),
        },
        TokenType::LESS => match (left, right) {
            (Object::NUMBER(l), Object::NUMBER(r)) => Ok(Object::BOOL(l.less(r))),
            _ => error_at(op, "Operands must be numbers."),
        },
        TokenType::LESS_EQUAL => match (left, right) {
            (Object::NUMBER(l), Object::NUMBER(r)) => Ok(Object::BOOL(l.less_equal(r))),
            _ => error_at(op, "Operands must be numbers."),
        },
        TokenType::EQUAL_EQUAL => Ok(Object::BOOL(is_equal(&left, &right))),
        TokenType::BANG_EQUAL => Ok(Object::BOOL(!is_equal(&left, &right))),
        _ => error_at(op, "Unknown operator."),
    }
}

/// Applies a unary operator to its operand value.
pub fn unary_op<N: Numeric>(op: &Token, right: Object<N>) -> (res: RTResult<N>)
    ensures
        unary_outcome(*op, right, res),
{
    match op.token_type {
        TokenType::MINUS => match right {
            Object::NUMBER(n) => Ok(Object::NUMBER(n.negate())),
            _ => error_at(op, "Operands must be numbers."),
        },
        TokenType::BANG => Ok(Object::BOOL(!right.to_bool())),
        _ => error_at(op, "Unknown operator."),
    }
}

/// The error of a call with `got` arguments of a callee that takes `expected`.
pub fn arity_error<N: Numeric>(paren: &Token, expected: usize, got: usize) -> (r: RTResult<N>)
    ensures
        fails_with(r, *paren, arity_mismatch(expected as nat, got as nat)),
{
    let mut message = String::from_str("Expected ");
    let e = decimal_text(expected as u64);
    message.append(e.as_str());
    message.append(" arguments but got ");
    let g = decimal_text(got as u64);
    message.append(g.as_str());
    message.append(".");
    proof {
        assert(message@ =~= arity_mismatch(expected as nat, got as nat));
    }
    Err(RuntimeException::ERROR(RuntimeError { token: paren.duplicate(), message }))
}

/// The value of a literal where the literal alone decides it; `None` for
/// a number, which the number type reads.
pub open spec fn literal_value<N>(l: Literals) -> Option<Object<N>> {
    match l {
        Literals::STRING(s) => Some(Object::STRING(s)),
        Literals::NUMBER(_) => None,
        Literals::BOOL(b) => Some(Object::BOOL(b)),
        Literals::NIL => Some(Object::NIL),
    }
}

/// `r` is the outcome of reading a variable whose value is `value`: that
/// value, or the undefined-variable error when there is none.
pub open spec fn reads_variable<N>(value: Option<Object<N>>, name: Token, r: RTResult<N>) -> bool {
    match value {
        Some(v) => r == Ok::<Object<N>, RuntimeException<N>>(v),
        None => fails_with(r, name, undefined_variable(name.lexeme@)),
    }
}

/// `entry` is method `m` of a class declared in frame `frame`.
pub open spec fn declares_method(entry: (String, LoxFunction), m: Rc<Function>, frame: usize) -> bool {
    &&& entry.0@ == m.name.lexeme@
    &&& entry.1.declaration == m
    &&& entry.1.closure == frame
    &&& entry.1.is_initializer == (m.name.lexeme@ == init_name())
}

/// `k` is the class that declaration `c`, executed in frame `frame`, makes:
/// its name, and one method per declared method, in order.
pub open spec fn declares_class(k: LoxClass, c: Class, frame: usize) -> bool {
    &&& k.name@ == c.name.lexeme@
    &&& k.methods@.len() == c.methods@.len()
    &&& forall|j: int| 0 <= j < k.methods@.len() ==> declares_method(#[trigger] k.methods@[j], c.methods@[j], frame)
}

/// The evaluator: the frame graph with its global frame and current frame,
/// the distance table that resolution filled, the instance store, the text
/// printed so far, and the number of steps (calls and loop iterations)
/// the run may still take.
pub struct Interpreter<N> {
    pub globals: usize,
    pub environment: usize,
    pub locals: HashMap<usize, usize>,
    pub frames: Environment<N>,
    pub instances: Vec<LoxInstance<N>>,
    pub output: Vec<String>,
    pub steps_left: u64,
    /// The serial the next class declaration gives its class.
    pub classes_made: u64,
}

/// The serial after `n`. Serials stay distinct for the first `u64::MAX`
/// class declarations a run executes.
pub open spec fn next_serial(n: u64) -> u64 {
    if n < u64::MAX {
        (n + 1) as u64
    } else {
        n
    }
}

impl<N> Interpreter<N> {
    pub open spec fn wf(&self) -> bool {
        &&& self.frames.wf()
        &&& self.globals == 0
        &&& self.frames.has_frame(self.environment as int)
    }

    /// Only the distance table differs from `old`.
    pub open spec fn only_table_changed(&self, old: &Interpreter<N>) -> bool {
        &&& self.globals == old.globals
        &&& self.environment == old.environment
        &&& self.frames == old.frames
        &&& self.instances == old.instances
        &&& self.output == old.output
        &&& self.steps_left == old.steps_left
        &&& self.classes_made == old.classes_made
    }

    /// What a step of execution keeps: the current frame, the distance
    /// table, the number of frames (net of those it reclaimed, which are
    /// its own), and the lines printed so far (output is only appended).
    pub open spec fn keeps(&self, old: &Interpreter<N>) -> bool {
        &&& self.environment == old.environment
        &&& self.globals == old.globals
        &&& self.locals@ == old.locals@
        &&& self.frames.frames@.len() >= old.frames.frames@.len()
        &&& self.steps_left <= old.steps_left
        &&& self.output@.len() >= old.output@.len()
        &&& forall|i: int| 0 <= i < old.output@.len() ==> #[trigger] self.output@[i] == old.output@[i]
    }

    /// The value a variable reference reads: through its recorded distance
    /// from the current frame if it has one, else from the global frame.
    pub open spec fn variable_value(&self, name: Token) -> Option<Object<N>> {
        if self.locals@.contains_key(name.id) {
            match self.frames.ancestor_of(self.environment as int, self.locals@[name.id] as nat) {
                Some(a) => self.frames.local(a, name.lexeme@),
                None => None,
            }
        } else {
            self.frames.lookup(self.globals as int, name.lexeme@)
        }
    }
}

impl<N: Numeric> Interpreter<N> {
    /// An interpreter with an empty global frame and a step budget that no
    /// run reaches in practice.
    pub fn new() -> (r: Interpreter<N>)
        ensures
            r.wf(),
            r.environment == r.globals,
            r.locals@ == Map::<usize, usize>::empty(),
            r.instances@.len() == 0,
            r.output@.len() == 0,
            r.frames.frames@.len() == 1,
            r.frames.frames@[0].values@.len() == 0,
            r.steps_left == u64::MAX,
    {
        Interpreter::with_budget(u64::MAX)
    }

    /// An interpreter that stops with an error after `steps` calls and
    /// loop iterations.
    pub fn with_budget(steps: u64) -> (r: Interpreter<N>)
        ensures
            r.wf(),
            r.environment == r.globals,
            r.locals@ == Map::<usize, usize>::empty(),
            r.instances@.len() == 0,
            r.output@.len() == 0,
            r.frames.frames@.len() == 1,
            r.frames.frames@[0].values@.len() == 0,
            r.steps_left == steps,
    {
        Interpreter {
            globals: 0,
            environment: 0,
            locals: HashMap::new(),
            frames: Environment::new(),
            instances: Vec::new(),
            output: Vec::new(),
            steps_left: steps,
            classes_made: 0,
        }
    }

    /// Records that the variable reference `token_id` binds `depth` frames out.
    pub fn resolve(&mut self, token_id: usize, depth: usize)
        ensures
            final(self).locals@ == old(self).locals@.insert(token_id, depth),
            final(self).environment == old(self).environment,
            final(self).globals == old(self).globals,
            final(self).frames == old(self).frames,
            final(self).instances == old(self).instances,
            final(self).output == old(self).output,
            final(self).steps_left == old(self).steps_left,
            final(self).classes_made == old(self).classes_made,
    {
        broadcast use vstd::std_specs::hash::group_hash_axioms;
        self.locals.insert(token_id, depth);
    }

    /// Runs a program's top-level statements in order against the global
    /// frame, stopping at the first runtime error, which is returned.
    pub fn interpret(&mut self, statements: &Vec<Stmt>) -> (r: Result<(), RuntimeError>)
        requires
            old(self).wf(),
        ensures
            final(self).wf(),
            final(self).keeps(old(self)),
            exists|t: Trace<N>| program_rel(*old(self), statements@, *final(self), r, t),
    {
        let ghost mut tp: Trace<N> = leaf();
        let mut i: usize = 0;
        proof {
            assert(statements@.subrange(0, 0) =~= Seq::<Stmt>::empty());
        }
        while i < statements.len()
            invariant
                self.wf(),
                self.keeps(old(self)),
                i <= statements@.len(),
                program_rel(*old(self), statements@.subrange(0, i as int), *self, Ok(()), tp),
            decreases statements.len() - i,
        {
            let ghost before = *self;
            let outcome = self.execute(&statements[i]);
            let ghost go = outcome;
            let ghost te = choose|t: Trace<N>| exec_rel(before, statements@[i as int], *self, go, t);
            let ghost sub = statements@.subrange(0, i + 1);
            let ghost tn = Trace {
                states: seq![before],
                values: Seq::empty(),
                units: seq![go],
                lists: Seq::empty(),
                envs: Seq::empty(),
                nums: Seq::empty(),
                outs: seq![Ok(())],
                kids: seq![tp, te],
            };
            proof {
                assert(sub.drop_last() =~= statements@.subrange(0, i as int));
                assert(sub.last() == statements@[i as int]);
            }
            match outcome {
                Err(RuntimeException::ERROR(e)) => {
                    proof {
                        assert(program_rel(*old(self), sub, *self, Err(e), tn));
                        let tf = lemma_program_stop(*old(self), statements@, i + 1, *self, e, tn);
                    }
                    return Err(e);
                },
                _ => {},
            }
            proof {
                assert(program_rel(*old(self), sub, *self, Ok(()), tn));
                tp = tn;
            }
            i = i + 1;
        }
        proof {
            assert(statements@.subrange(0, i as int) =~= statements@);
        }
        Ok(())
    }

    fn lookup_variable(&self, name: &Token) -> (r: RTResult<N>)
        requires
            self.wf(),
        ensures
            r matches Ok(v) ==> self.variable_value(*name) == Some(v),
            r is Err ==> self.variable_value(*name) is None && fails_with(
                r,
                *name,
                undefined_variable(name.lexeme@),
            ),
    {
        broadcast use vstd::std_specs::hash::group_hash_axioms;
        let found = match self.locals.get(&name.id) {
            Some(d) => self.frames.get_at(self.environment, *d, name),
            None => self.frames.get(self.globals, name),
        };
        match found {
            Ok(v) => Ok(v),
            Err(e) => Err(RuntimeException::ERROR(e)),
        }
    }

    /// Writes a variable: through its recorded distance if it has one,
    /// else searching outward from the global frame.
    fn assign_variable(&mut self, name: &Token, value: Object<N>) -> (r: RTResult<N>)
        requires
            old(self).wf(),
        ensures
            final(self).wf(),
            final(self).keeps(old(self)),
            final(self).steps_left == old(self).steps_left,
            r is Ok ==> r == Ok::<Object<N>, RuntimeException<N>>(value),
            r is Ok ==> final(self).variable_value(*name) == Some(value),
            assigns(*old(self), *name, value, *final(self), r),
    {
        broadcast use vstd::std_specs::hash::group_hash_axioms;
        let ghost before = self.frames;
        let r = match self.locals.get(&name.id) {
            Some(d) => {
                let r = self.frames.assign_at(self.environment, *d, name, value);
                proof {
                    if r is Ok {
                        before.lemma_ancestor_kept(&self.frames, self.environment as int, *d as nat);
                    }
                }
                r
            },
            None => self.frames.assign(self.globals, name, value),
        };
        match r {
            Ok(v) => Ok(v),
            Err(e) => Err(RuntimeException::ERROR(e)),
        }
    }

    /// Takes one step of the budget, or fails at `token` when none is left.
    fn take_step(&mut self, token: &Token) -> (r: Result<(), RuntimeException<N>>)
        ensures
            old(self).steps_left > 0 ==> r is Ok && final(self).steps_left == old(self).steps_left - 1,
            old(self).steps_left == 0 ==> final(self).steps_left == 0,
            old(self).steps_left == 0 ==> (r matches Err(RuntimeException::ERROR(e)) && e.token
                == *token && e.message@ == budget_spent()),
            final(self).environment == old(self).environment,
            final(self).globals == old(self).globals,
            final(self).locals == old(self).locals,
            final(self).frames == old(self).frames,
            final(self).instances == old(self).instances,
            final(self).output == old(self).output,
            old(self).steps_left > 0 ==> *final(self) == (Interpreter { steps_left: (old(self).steps_left - 1) as u64, ..*old(self) }),
            old(self).steps_left == 0 ==> *final(self) == *old(self),
    {
        if self.steps_left == 0 {
            Err(RuntimeException::error(token, "Step budget exhausted."))
        } else {
            self.steps_left = self.steps_left - 1;
            Ok(())
        }
    }

    /// Evaluates an expression in the current frame.
    pub fn evaluate(&mut self, expr: &Expr) -> (r: RTResult<N>)
        requires
            old(self).wf(),
        ensures
            final(self).wf(),
            final(self).keeps(old(self)),
            exists|t: Trace<N>| eval_rel(*old(self), *expr, *final(self), r, t),
        decreases old(self).steps_left, 2nat, expr_size(*expr),
    {
        let ghost s0 = *self;
        match expr {
            Expr::Literal(l) => {
                let r = Ok(match &l.value {
                    Literals::NUMBER(text) => Object::NUMBER(N::from_literal(text)),
                    Literals::STRING(s) => Object::STRING(s.clone()),
                    Literals::BOOL(b) => Object::BOOL(*b),
                    Literals::NIL => Object::NIL,
                });
                proof {
                    assert(eval_rel(s0, *expr, *self, r, leaf()));
                }
                r
            },
            Expr::Grouping(g) => {
                let r = self.evaluate(&g.expression);
                proof {
                    let t = choose|t: Trace<N>| eval_rel(s0, *g.expression, *self, r, t);
                    assert(eval_rel(s0, *expr, *self, r, t));
                }
                r
            },
            Expr::Unary(u) => {
                let x = self.evaluate(&u.right);
                let ghost m = *self;
                let ghost gx = x;
                let ghost t0 = choose|t: Trace<N>| eval_rel(s0, *u.right, m, gx, t);
                let r = match x {
                    Ok(v) => unary_op(&u.operator, v),
                    Err(z) => Err(z),
                };
                proof {
                    assert(eval_rel(s0, *expr, *self, r, trace(seq![m], seq![gx], Seq::empty(), seq![t0])));
                }
                r
            },
            Expr::Binary(b) => {
                let x = self.evaluate(&b.left);
                let ghost m = *self;
                let ghost gx = x;
                let ghost t0 = choose|t: Trace<N>| eval_rel(s0, *b.left, m, gx, t);
                match x {
                    Err(z) => {
                        proof {
                            assert(eval_rel(s0, *expr, *self, Err(z), trace(seq![m], seq![gx], Seq::empty(), seq![t0])));
                        }
                        Err(z)
                    },
                    Ok(left) => {
                        let y = self.evaluate(&b.right);
                        let ghost gy = y;
                        let ghost t1 = choose|t: Trace<N>| eval_rel(m, *b.right, *self, gy, t);
                        let r = match y {
                            Err(z) => Err(z),
                            Ok(right) => binary_op(&b.operator, left, right),
                        };
                        proof {
                            assert(eval_rel(s0, *expr, *self, r, trace(seq![m], seq![gx, gy], Seq::empty(), seq![t0, t1])));
                        }
                        r
                    },
                }
            },
            Expr::Variable(v) => {
                let r = self.lookup_variable(&v.name);
                proof {
                    assert(eval_rel(s0, *expr, *self, r, leaf()));
                }
                r
            },
            Expr::This(t) => {
                let r = self.lookup_variable(&t.keyword);
                proof {
                    assert(eval_rel(s0, *expr, *self, r, leaf()));
                }
                r
            },
            Expr::Assign(a) => {
                let x = self.evaluate(&a.value);
                let ghost m = *self;
                let ghost gx = x;
                let ghost t0 = choose|t: Trace<N>| eval_rel(s0, *a.value, m, gx, t);
                let r = match x {
                    Err(z) => Err(z),
                    Ok(value) => self.assign_variable(&a.name, value),
                };
                proof {
                    assert(eval_rel(s0, *expr, *self, r, trace(seq![m], seq![gx], Seq::empty(), seq![t0])));
                }
                r
            },
            Expr::Logical(l) => {
                let x = self.evaluate(&l.left);
                let ghost m = *self;
                let ghost gx = x;
                let ghost t0 = choose|t: Trace<N>| eval_rel(s0, *l.left, m, gx, t);
                match x {
                    Err(z) => {
                        proof {
                            assert(eval_rel(s0, *expr, *self, Err(z), trace(seq![m], seq![gx], Seq::empty(), seq![t0])));
                        }
                        Err(z)
                    },
                    Ok(left) => {
                        let known = match l.operator.token_type {
                            TokenType::OR | TokenType::AND => true,
                            _ => false,
                        };
                        if !known {
                            let r = error_at(&l.operator, "Unknown operator.");
                            proof {
                                assert(eval_rel(s0, *expr, *self, r, trace(seq![m], seq![gx], Seq::empty(), seq![t0])));
                            }
                            return r;
                        }
                        if short_circuits(l.operator.token_type, &left) {
                            let r = Ok(left);
                            proof {
                                assert(eval_rel(s0, *expr, *self, r, trace(seq![m], seq![gx], Seq::empty(), seq![t0])));
                            }
                            return r;
                        }
                        let r = self.evaluate(&l.right);
                        proof {
                            let t1 = choose|t: Trace<N>| eval_rel(m, *l.right, *self, r, t);
                            assert(eval_rel(s0, *expr, *self, r, trace(seq![m], seq![gx], Seq::empty(), seq![t0, t1])));
                        }
                        r
                    },
                }
            },
            Expr::Call(c) => {
                let x = self.evaluate(&c.callee);
                let ghost m = *self;
                let ghost gx = x;
                let ghost t0 = choose|t: Trace<N>| eval_rel(s0, *c.callee, m, gx, t);
                let callee = match x {
                    Err(z) => {
                        proof {
                            assert(eval_rel(s0, *expr, *self, Err(z), trace(seq![m], seq![gx], Seq::empty(), seq![t0])));
                        }
                        return Err(z);
                    },
                    Ok(v) => v,
                };
                let mut arguments: Vec<Object<N>> = Vec::new();
                let ghost mut ta: Trace<N> = leaf();
                let mut i: usize = 0;
                proof {
                    assert(c.arguments@.subrange(0, 0) =~= Seq::<Expr>::empty());
                    assert(arguments@ =~= Seq::<Object<N>>::empty());
                }
                while i < c.arguments.len()
                    invariant
                        self.wf(),
                        self.keeps(old(self)),
                        m.keeps(old(self)),
                        self.steps_left <= m.steps_left,
                        *expr == Expr::Call(*c),
                        i <= c.arguments@.len(),
                        s0 == *old(self),
                        eval_rel(s0, *c.callee, m, gx, t0),
                        gx == Ok::<Object<N>, RuntimeException<N>>(callee),
                        args_rel(m, c.arguments@.subrange(0, i as int), *self, Ok(arguments@), ta),
                    decreases c.arguments@.len() - i,
                {
                    proof {
                        lemma_exprs_size(c.arguments@, i as int);
                    }
                    let ghost before = *self;
                    let y = self.evaluate(&c.arguments[i]);
                    let ghost gy = y;
                    let ghost ty = choose|t: Trace<N>| eval_rel(before, c.arguments@[i as int], *self, gy, t);
                    let ghost sub = c.arguments@.subrange(0, i + 1);
                    proof {
                        assert(sub.drop_last() =~= c.arguments@.subrange(0, i as int));
                        assert(sub.last() == c.arguments@[i as int]);
                    }
                    match y {
                        Err(z) => {
                            proof {
                                let tn = Trace {
                                    states: seq![before],
                                    values: seq![gy],
                                    units: Seq::empty(),
                                    lists: seq![Ok(arguments@)],
                                    envs: Seq::empty(),
                                    nums: Seq::empty(),
                                    outs: Seq::empty(),
                                    kids: seq![ta, ty],
                                };
                                assert(args_rel(m, sub, *self, Err(z), tn));
                                let tf = lemma_args_error(m, c.arguments@, i + 1, *self, z, tn);
                                let gl = Err::<Seq<Object<N>>, RuntimeException<N>>(z);
                                assert(eval_rel(s0, *expr, *self, Err(z), Trace {
                                    states: seq![m, *self],
                                    values: seq![gx],
                                    units: Seq::empty(),
                                    lists: seq![gl],
                                    envs: Seq::empty(),
                                    nums: Seq::empty(),
                                    outs: Seq::empty(),
                                    kids: seq![t0, tf],
                                }));
                            }
                            return Err(z);
                        },
                        Ok(v) => {
                            let ghost prev = arguments@;
                            arguments.push(v);
                            proof {
                                ta = Trace {
                                    states: seq![before],
                                    values: seq![gy],
                                    units: Seq::empty(),
                                    lists: seq![Ok(prev)],
                                    envs: Seq::empty(),
                                    nums: Seq::empty(),
                                    outs: Seq::empty(),
                                    kids: seq![ta, ty],
                                };
                                assert(args_rel(m, sub, *self, Ok(arguments@), ta));
                            }
                        },
                    }
                    i = i + 1;
                }
                proof {
                    assert(c.arguments@.subrange(0, i as int) =~= c.arguments@);
                }
                let ghost m2 = *self;
                let ghost vals = arguments@;
                let r = self.call_value(callee, arguments, &c.paren);
                proof {
                    let tc = choose|t: Trace<N>| call_rel(m2, callee, vals, c.paren, *self, r, t);
                    let gl = Ok::<Seq<Object<N>>, RuntimeException<N>>(vals);
                    assert(eval_rel(s0, *expr, *self, r, Trace {
                        states: seq![m, m2],
                        values: seq![gx],
                        units: Seq::empty(),
                        lists: seq![gl],
                        envs: Seq::empty(),
                        nums: Seq::empty(),
                        outs: Seq::empty(),
                        kids: seq![t0, ta, tc],
                    }));
                }
                r
            },
            Expr::Get(g) => {
                let x = self.evaluate(&g.object);
                let ghost m = *self;
                let ghost gx = x;
                let ghost t0 = choose|t: Trace<N>| eval_rel(s0, *g.object, m, gx, t);
                let r = match x {
                    Err(z) => Err(z),
                    Ok(Object::Instance(i)) => {
                        if i < self.instances.len() {
                            match self.instances[i].get(i, &mut self.frames, &g.name) {
                                Ok(v) => Ok(v),
                                Err(e) => Err(RuntimeException::ERROR(e)),
                            }
                        } else {
                            error_at(&g.name, "Only instances have properties.")
                        }
                    },
                    Ok(_) => error_at(&g.name, "Only instances have properties."),
                };
                proof {
                    assert(eval_rel(s0, *expr, *self, r, trace(seq![m], seq![gx], Seq::empty(), seq![t0])));
                }
                r
            },
            Expr::SetProperty(p) => {
                let x = self.evaluate(&p.object);
                let ghost m = *self;
                let ghost gx = x;
                let ghost t0 = choose|t: Trace<N>| eval_rel(s0, *p.object, m, gx, t);
                match x {
                    Err(z) => {
                        proof {
                            assert(eval_rel(s0, *expr, *self, Err(z), trace(seq![m], seq![gx], Seq::empty(), seq![t0])));
                        }
                        Err(z)
                    },
                    Ok(Object::Instance(i)) => {
                        let y = self.evaluate(&p.value);
                        let ghost m2 = *self;
                        let ghost gy = y;
                        let ghost t1 = choose|t: Trace<N>| eval_rel(m, *p.value, m2, gy, t);
                        let r = match y {
                            Err(z) => Err(z),
                            Ok(value) => {
                                if i < self.instances.len() {
                                    self.instances[i].set(&p.name, value);
                                    Ok(Object::NIL)
                                } else {
                                    error_at(&p.name, "Only instances have properties.")
                                }
                            },
                        };
                        proof {
                            assert(eval_rel(s0, *expr, *self, r, trace(seq![m, m2], seq![gx, gy], Seq::empty(), seq![t0, t1])));
                        }
                        r
                    },
                    Ok(_) => {
                        let r = error_at(&p.name, "Only instances have properties.");
                        proof {
                            assert(eval_rel(s0, *expr, *self, r, trace(seq![m], seq![gx], Seq::empty(), seq![t0])));
                        }
                        r
                    },
                }
            },
        }
    }

    /// Calls `callee` with argument values already evaluated; `paren` is
    /// where errors are reported. Only functions and classes can be called,
    /// and only with as many arguments as they take.
    pub fn call_value(&mut self, callee: Object<N>, arguments: Vec<Object<N>>, paren: &Token) -> (r: RTResult<N>)
        requires
            old(self).wf(),
        ensures
            final(self).wf(),
            final(self).keeps(old(self)),
            exists|t: Trace<N>| call_rel(*old(self), callee, arguments@, *paren, *final(self), r, t),
        decreases old(self).steps_left, 1nat, 0nat,
    {
        let ghost s0 = *self;
        let ghost gc = callee;
        let ghost args = arguments@;
        match callee {
            Object::Function(f) => {
                let arity = f.arity();
                if arguments.len() != arity {
                    let r = arity_error(paren, arity, arguments.len());
                    proof {
                        assert(call_rel(s0, gc, args, *paren, *self, r, leaf()));
                    }
                    r
                } else {
                    let r = self.call_function(&f, arguments, paren);
                    proof {
                        let t = choose|t: Trace<N>| fun_rel(s0, f, args, *paren, *self, r, t);
                        assert(call_rel(s0, gc, args, *paren, *self, r, t));
                    }
                    r
                }
            },
            Object::Class(class) => {
                let arity = class.arity();
                if arguments.len() != arity {
                    let r = arity_error(paren, arity, arguments.len());
                    proof {
                        assert(call_rel(s0, gc, args, *paren, *self, r, leaf()));
                    }
                    return r;
                }
                let index = self.instances.len();
                self.instances.push(LoxInstance::new(Rc::clone(&class)));
                let ghost sa = *self;
                proof {
                    assert(sa.instances@.subrange(0, index as int) =~= s0.instances@);
                }
                let init = init_text();
                match class.find_method(&init) {
                    Some(initializer) => {
                        if initializer.closure < self.frames.frames.len() {
                            let bound = initializer.bind(&mut self.frames, Object::Instance(index));
                            let ghost sb = *self;
                            let ghost gb = Ok::<Object<N>, RuntimeException<N>>(Object::Function(bound));
                            let y = self.call_function(&bound, arguments, paren);
                            let ghost gy = y;
                            let ghost tf = choose|t: Trace<N>| fun_rel(sb, bound, args, *paren, *self, gy, t);
                            let r = match y {
                                Err(z) => Err(z),
                                Ok(_) => Ok(Object::Instance(index)),
                            };
                            proof {
                                assert(call_rel(s0, gc, args, *paren, *self, r, trace(seq![sa, sb], seq![gb, gy], Seq::empty(), seq![tf])));
                            }
                            r
                        } else {
                            let r = error_at(paren, "Closure frame is missing.");
                            proof {
                                assert(call_rel(s0, gc, args, *paren, *self, r, trace(seq![sa], Seq::empty(), Seq::empty(), Seq::empty())));
                            }
                            r
                        }
                    },
                    None => {
                        let r = Ok(Object::Instance(index));
                        proof {
                            assert(call_rel(s0, gc, args, *paren, *self, r, trace(seq![sa], Seq::empty(), Seq::empty(), Seq::empty())));
                        }
                        r
                    },
                }
            },
            _ => {
                let r = error_at(paren, "Can only call functions and classes.");
                proof {
                    assert(call_rel(s0, gc, args, *paren, *self, r, leaf()));
                }
                r
            },
        }
    }

    /// Runs a function's body in a new frame, enclosed by its closure, that
    /// binds each parameter to its argument. A body that runs off its end
    /// gives `nil`; an initializer always gives its `this`.
    pub fn call_function(&mut self, function: &LoxFunction, arguments: Vec<Object<N>>, paren: &Token) -> (r: RTResult<N>)
        requires
            old(self).wf(),
            arguments@.len() == function.declaration.params@.len(),
        ensures
            final(self).wf(),
            final(self).keeps(old(self)),
            exists|t: Trace<N>| fun_rel(*old(self), *function, arguments@, *paren, *final(self), r, t),
        decreases old(self).steps_left, 0nat, 0nat,
    {
        let ghost s0 = *self;
        let ghost args = arguments@;
        match self.take_step(paren) {
            Err(z) => {
                proof {
                    assert(fun_rel(s0, *function, args, *paren, *self, Err(z), leaf()));
                }
                return Err(z);
            },
            Ok(()) => {},
        }
        let ghost sa = *self;
        if function.closure >= self.frames.frames.len() {
            let r = error_at(paren, "Closure frame is missing.");
            proof {
                assert(fun_rel(s0, *function, args, *paren, *self, r, leaf()));
            }
            return r;
        }
        let frame = self.frames.from_env(function.closure);
        let ghost e1 = self.frames;
        let declaration = &function.declaration;
        let ghost mut tp: Trace<N> = leaf();
        let mut i: usize = 0;
        proof {
            assert(declaration.params@.subrange(0, 0) =~= Seq::<Token>::empty());
        }
        while i < declaration.params.len()
            invariant
                self.wf(),
                self.keeps(old(self)),
                self.steps_left < old(self).steps_left,
                self.frames.has_frame(frame as int),
                self.frames.has_frame(function.closure as int),
                arguments@.len() == declaration.params@.len(),
                args == arguments@,
                i <= declaration.params@.len(),
                *self == with_frames(sa, self.frames),
                params_rel(e1, frame as int, declaration.params@.subrange(0, i as int), args, self.frames, tp),
            decreases declaration.params@.len() - i,
        {
            let ghost before = self.frames;
            let value = arguments[i].duplicate();
            self.frames.define(frame, declaration.params[i].lexeme.clone(), value);
            proof {
                let sub = declaration.params@.subrange(0, i + 1);
                assert(sub.drop_last() =~= declaration.params@.subrange(0, i as int));
                tp = Trace {
                    states: Seq::empty(),
                    values: Seq::empty(),
                    units: Seq::empty(),
                    lists: Seq::empty(),
                    envs: seq![before],
                    nums: Seq::empty(),
                    outs: Seq::empty(),
                    kids: seq![tp],
                };
                assert(params_rel(e1, frame as int, sub, args, self.frames, tp));
            }
            i = i + 1;
        }
        proof {
            assert(declaration.params@.subrange(0, i as int) =~= declaration.params@);
        }
        let ghost e2 = self.frames;
        let outcome = self.execute_block(&declaration.body, frame);
        let ghost sb = *self;
        let ghost go = outcome;
        let ghost tb = choose|t: Trace<N>| block_rel(with_frames(sa, e2), declaration.body@, frame, sb, go, t);
        self.frames.release(frame);
        let r = match outcome {
            Ok(()) => {
                if function.is_initializer {
                    self.this_of(function.closure, paren)
                } else {
                    Ok(Object::NIL)
                }
            },
            Err(RuntimeException::RETURN(rv)) => {
                if function.is_initializer {
                    self.this_of(function.closure, paren)
                } else {
                    Ok(rv.value)
                }
            },
            Err(e) => Err(e),
        };
        proof {
            let t = Trace {
                states: seq![sb],
                values: Seq::empty(),
                units: seq![go],
                lists: Seq::empty(),
                envs: seq![e1, e2],
                nums: seq![frame],
                outs: Seq::empty(),
                kids: seq![tp, tb],
            };
            assert(fun_rel(s0, *function, args, *paren, *self, r, t));
        }
        r
    }

    /// The `this` bound in frame `closure` itself.
    fn this_of(&self, closure: usize, paren: &Token) -> (r: RTResult<N>)
        requires
            self.wf(),
            self.frames.has_frame(closure as int),
        ensures
            r matches Ok(v) ==> self.frames.local(closure as int, this_name()) == Some(v),
            receiver(*self, closure, *paren, r),
    {
        let name = this_text();
        match find_slot(&self.frames.frames[closure].values, &name) {
            Some(i) => Ok(self.frames.frames[closure].values[i].1.duplicate()),
            None => error_at(paren, "Initializer has no receiver."),
        }
    }

    /// Runs `statements` in frame `frame`, then makes the frame that was
    /// current before current again, on every way out.
    pub fn execute_block(&mut self, statements: &Vec<Stmt>, frame: usize) -> (r: Result<(), RuntimeException<N>>)
        requires
            old(self).wf(),
            old(self).frames.has_frame(frame as int),
        ensures
            final(self).wf(),
            final(self).keeps(old(self)),
            exists|t: Trace<N>| block_rel(*old(self), statements@, frame, *final(self), r, t),
        decreases old(self).steps_left, 2nat, stmts_size(statements@) + 1,
    {
        let previous = self.environment;
        self.environment = frame;
        let ghost start = *self;
        let ghost mut ts: Trace<N> = leaf();
        let mut i: usize = 0;
        proof {
            assert(statements@.subrange(0, 0) =~= Seq::<Stmt>::empty());
        }
        while i < statements.len()
            invariant
                self.wf(),
                self.environment == frame,
                self.globals == old(self).globals,
                self.locals@ == old(self).locals@,
                self.frames.frames@.len() >= old(self).frames.frames@.len(),
                self.steps_left <= old(self).steps_left,
                self.output@.len() >= old(self).output@.len(),
                forall|j: int| 0 <= j < old(self).output@.len() ==> #[trigger] self.output@[j] == old(self).output@[j],
                previous == old(self).environment,
                old(self).wf(),
                start == (Interpreter { environment: frame, ..*old(self) }),
                i <= statements@.len(),
                self.steps_left <= start.steps_left,
                stmts_rel(start, statements@.subrange(0, i as int), *self, Ok(()), ts),
            decreases statements@.len() - i,
        {
            proof {
                lemma_stmts_size(statements@, i as int);
            }
            let ghost before = *self;
            let outcome = self.execute(&statements[i]);
            let ghost go = outcome;
            let ghost te = choose|t: Trace<N>| exec_rel(before, statements@[i as int], *self, go, t);
            let ghost sub = statements@.subrange(0, i + 1);
            proof {
                assert(sub.drop_last() =~= statements@.subrange(0, i as int));
                assert(sub.last() == statements@[i as int]);
            }
            let ghost tn = trace(seq![before], Seq::empty(), seq![Ok(())], seq![ts, te]);
            proof {
                assert(stmts_rel(start, sub, *self, go, tn));
            }
            match outcome {
                Err(z) => {
                    let ghost m = *self;
                    self.environment = previous;
                    proof {
                        let tf = lemma_stmts_stop(start, statements@, i + 1, m, z, tn);
                        assert(block_rel(*old(self), statements@, frame, *self, Err(z), trace(seq![m], Seq::empty(), Seq::empty(), seq![tf])));
                    }
                    return Err(z);
                },
                Ok(u) => {
                    proof {
                        assert(go == Ok::<(), RuntimeException<N>>(u));
                        assert(stmts_rel(start, sub, *self, Ok(u), tn));
                        ts = tn;
                    }
                },
            }
            i = i + 1;
        }
        proof {
            assert(statements@.subrange(0, i as int) =~= statements@);
        }
        let ghost m = *self;
        self.environment = previous;
        proof {
            assert(block_rel(*old(self), statements@, frame, *self, Ok(()), trace(seq![m], Seq::empty(), Seq::empty(), seq![ts])));
        }
        Ok(())
    }

    /// Executes a statement in the current frame.
    pub fn execute(&mut self, stmt: &Stmt) -> (r: Result<(), RuntimeException<N>>)
        requires
            old(self).wf(),
        ensures
            final(self).wf(),
            final(self).keeps(old(self)),
            exists|t: Trace<N>| exec_rel(*old(self), *stmt, *final(self), r, t),
        decreases old(self).steps_left, 2nat, stmt_size(*stmt),
    {
        let ghost s0 = *self;
        match stmt {
            Stmt::Expression(s) => {
                let x = self.evaluate(&s.expression);
                let ghost gx = x;
                let ghost t0 = choose|t: Trace<N>| eval_rel(s0, *s.expression, *self, gx, t);
                let r = match x {
                    Ok(_) => Ok(()),
                    Err(z) => Err(z),
                };
                proof {
                    assert(exec_rel(s0, *stmt, *self, r, trace(Seq::empty(), seq![gx], Seq::empty(), seq![t0])));
                }
                r
            },
            Stmt::Print(s) => {
                let x = self.evaluate(&s.expression);
                let ghost m = *self;
                let ghost gx = x;
                let ghost t0 = choose|t: Trace<N>| eval_rel(s0, *s.expression, m, gx, t);
                match x {
                    Err(z) => {
                        proof {
                            assert(exec_rel(s0, *stmt, *self, Err(z), trace(seq![m], seq![gx], Seq::empty(), seq![t0])));
                        }
                        Err(z)
                    },
                    Ok(value) => {
                        let text = self.stringify(&value);
                        self.output.push(text);
                        proof {
                            assert(self.output@.subrange(0, m.output@.len() as int) =~= m.output@);
                            assert(exec_rel(s0, *stmt, *self, Ok(()), trace(seq![m], seq![gx], Seq::empty(), seq![t0])));
                        }
                        Ok(())
                    },
                }
            },
            Stmt::Var(s) => {
                let x = self.evaluate(&s.initializer);
                let ghost m = *self;
                let ghost gx = x;
                let ghost t0 = choose|t: Trace<N>| eval_rel(s0, *s.initializer, m, gx, t);
                let r = match x {
                    Err(z) => Err(z),
                    Ok(value) => {
                        self.frames.define(self.environment, s.name.lexeme.clone(), value);
                        Ok(())
                    },
                };
                proof {
                    assert(exec_rel(s0, *stmt, *self, r, trace(seq![m], seq![gx], Seq::empty(), seq![t0])));
                }
                r
            },
            Stmt::Block(b) => {
                let frame = self.frames.from_env(self.environment);
                let ghost e1 = self.frames;
                let outcome = self.execute_block(&b.statements, frame);
                let ghost m = *self;
                let ghost go = outcome;
                let ghost tb = choose|t: Trace<N>| block_rel(with_frames(s0, e1), b.statements@, frame, m, go, t);
                self.frames.release(frame);
                proof {
                    let t = Trace {
                        states: seq![m],
                        values: Seq::empty(),
                        units: Seq::empty(),
                        lists: Seq::empty(),
                        envs: seq![e1],
                        nums: seq![frame],
                        outs: Seq::empty(),
                        kids: seq![tb],
                    };
                    assert(exec_rel(s0, *stmt, *self, outcome, t));
                }
                outcome
            },
            Stmt::If(s) => {
                let x = self.evaluate(&s.condition);
                let ghost m = *self;
                let ghost gx = x;
                let ghost t0 = choose|t: Trace<N>| eval_rel(s0, *s.condition, m, gx, t);
                match x {
                    Err(z) => {
                        proof {
                            assert(exec_rel(s0, *stmt, *self, Err(z), trace(seq![m], seq![gx], Seq::empty(), seq![t0])));
                        }
                        Err(z)
                    },
                    Ok(condition) => {
                        if condition.to_bool() {
                            let r = self.execute(&s.then_branch);
                            proof {
                                let t1 = choose|t: Trace<N>| exec_rel(m, *s.then_branch, *self, r, t);
                                assert(exec_rel(s0, *stmt, *self, r, trace(seq![m], seq![gx], Seq::empty(), seq![t0, t1])));
                            }
                            r
                        } else {
                            match &s.else_branch {
                                Some(e) => {
                                    let r = self.execute(e);
                                    proof {
                                        let t1 = choose|t: Trace<N>| exec_rel(m, **e, *self, r, t);
                                        assert(exec_rel(s0, *stmt, *self, r, trace(seq![m], seq![gx], Seq::empty(), seq![t0, t1])));
                                    }
                                    r
                                },
                                None => {
                                    proof {
                                        assert(exec_rel(s0, *stmt, *self, Ok(()), trace(seq![m], seq![gx], Seq::empty(), seq![t0])));
                                    }
                                    Ok(())
                                },
                            }
                        }
                    },
                }
            },
            Stmt::While(s) => {
                proof {
                    lemma_stmt_size_positive(*s.body);
                }
                loop
                    invariant
                        self.wf(),
                        self.keeps(old(self)),
                        *stmt == Stmt::While(*s),
                        s0 == *old(self),
                        forall|sf: Interpreter<N>, rr: Result<(), RuntimeException<N>>, tf: Trace<N>|
                            #[trigger] while_rel(*self, *s, sf, rr, tf) ==> exists|t2: Trace<N>| while_rel(s0, *s, sf, rr, t2),
                    decreases self.steps_left,
                {
                    let ghost cur = *self;
                    let x = self.evaluate(&s.condition);
                    let ghost m = *self;
                    let ghost gx = x;
                    let ghost t0 = choose|t: Trace<N>| eval_rel(cur, *s.condition, m, gx, t);
                    let condition = match x {
                        Err(z) => {
                            proof {
                                assert(while_rel(cur, *s, *self, Err(z), trace(seq![m], seq![gx], Seq::empty(), seq![t0])));
                                assert(exec_rel(s0, *stmt, *self, Err(z), choose|t2: Trace<N>| while_rel(s0, *s, *self, Err(z), t2)));
                            }
                            return Err(z);
                        },
                        Ok(c) => c,
                    };
                    if !condition.to_bool() {
                        proof {
                            assert(while_rel(cur, *s, *self, Ok(()), trace(seq![m], seq![gx], Seq::empty(), seq![t0])));
                            assert(exec_rel(s0, *stmt, *self, Ok(()), choose|t2: Trace<N>| while_rel(s0, *s, *self, Ok(()), t2)));
                        }
                        return Ok(());
                    }
                    match self.take_step(&s.token) {
                        Err(z) => {
                            proof {
                                assert(while_rel(cur, *s, *self, Err(z), trace(seq![m], seq![gx], Seq::empty(), seq![t0])));
                                assert(exec_rel(s0, *stmt, *self, Err(z), choose|t2: Trace<N>| while_rel(s0, *s, *self, Err(z), t2)));
                            }
                            return Err(z);
                        },
                        Ok(()) => {},
                    }
                    let ghost stepped = *self;
                    let y = self.execute(&s.body);
                    let ghost m2 = *self;
                    let ghost gy = y;
                    let ghost t1 = choose|t: Trace<N>| exec_rel(stepped, *s.body, m2, gy, t);
                    match y {
                        Err(z) => {
                            proof {
                                assert(while_rel(cur, *s, *self, Err(z), Trace {
                                    states: seq![m, m2],
                                    values: seq![gx],
                                    units: seq![gy],
                                    lists: Seq::empty(),
                                    envs: Seq::empty(),
                                    nums: Seq::empty(),
                                    outs: Seq::empty(),
                                    kids: seq![t0, t1],
                                }));
                                assert(exec_rel(s0, *stmt, *self, Err(z), choose|t2: Trace<N>| while_rel(s0, *s, *self, Err(z), t2)));
                            }
                            return Err(z);
                        },
                        Ok(()) => {},
                    }
                    proof {
                        assert forall|sf: Interpreter<N>, rr: Result<(), RuntimeException<N>>, tf: Trace<N>|
                            #[trigger] while_rel(m2, *s, sf, rr, tf) implies exists|t2: Trace<N>| while_rel(s0, *s, sf, rr, t2) by {
                            let tc = Trace {
                                states: seq![m, m2],
                                values: seq![gx],
                                units: seq![gy],
                                lists: Seq::empty(),
                                envs: Seq::empty(),
                                nums: Seq::empty(),
                                outs: Seq::empty(),
                                kids: seq![t0, t1, tf],
                            };
                            assert(while_rel(cur, *s, sf, rr, tc));
                        }
                    }
                }
            },
            Stmt::Function(f) => {
                self.frames.capture(self.environment);
                let ghost e1 = self.frames;
                let function = LoxFunction::new(Rc::clone(f), self.environment, false);
                self.frames.define(self.environment, f.name.lexeme.clone(), Object::Function(function));
                proof {
                    let t = Trace {
                        states: Seq::empty(),
                        values: Seq::empty(),
                        units: Seq::empty(),
                        lists: Seq::empty(),
                        envs: seq![e1],
                        nums: Seq::empty(),
                        outs: Seq::empty(),
                        kids: Seq::empty(),
                    };
                    assert(exec_rel(s0, *stmt, *self, Ok(()), t));
                }
                Ok(())
            },
            Stmt::Return(s) => {
                let x = self.evaluate(&s.value);
                let ghost gx = x;
                let ghost t0 = choose|t: Trace<N>| eval_rel(s0, *s.value, *self, gx, t);
                let r = match x {
                    Err(z) => Err(z),
                    Ok(value) => Err(RuntimeException::return_v(value)),
                };
                proof {
                    assert(exec_rel(s0, *stmt, *self, r, trace(Seq::empty(), seq![gx], Seq::empty(), seq![t0])));
                }
                r
            },
            Stmt::Class(c) => {
                let mut methods: Vec<(String, LoxFunction)> = Vec::new();
                let init = init_text();
                let mut i: usize = 0;
                while i < c.methods.len()
                    invariant
                        self.wf(),
                        *self == *old(self),
                        init@ == init_name(),
                        i <= c.methods@.len(),
                        methods@.len() == i,
                        forall|j: int|
                            0 <= j < i ==> declares_method(#[trigger] methods@[j], c.methods@[j], old(self).environment),
                    decreases c.methods@.len() - i,
                {
                    let method = &c.methods[i];
                    let is_init = method.name.lexeme == init;
                    let function = LoxFunction::new(Rc::clone(method), self.environment, is_init);
                    methods.push((method.name.lexeme.clone(), function));
                    i = i + 1;
                }
                let serial = self.classes_made;
                if self.classes_made < u64::MAX {
                    self.classes_made = self.classes_made + 1;
                }
                self.frames.capture(self.environment);
                let ghost e1 = self.frames;
                let class = LoxClass::new(c.name.lexeme.clone(), methods, serial);
                self.frames.define(self.environment, c.name.lexeme.clone(), Object::Class(Rc::new(class)));
                proof {
                    let t = Trace {
                        states: Seq::empty(),
                        values: Seq::empty(),
                        units: Seq::empty(),
                        lists: Seq::empty(),
                        envs: seq![e1],
                        nums: Seq::empty(),
                        outs: Seq::empty(),
                        kids: Seq::empty(),
                    };
                    assert(exec_rel(s0, *stmt, *self, Ok(()), t));
                }
                Ok(())
            },
        }
    }

    /// The canonical text of a value, as `print` writes it.
    pub fn stringify(&self, value: &Object<N>) -> (r: String)
        ensures
            *value matches Object::STRING(s) ==> r@ == s@,
            *value matches Object::BOOL(b) ==> r@ == (if b { "true"@ } else { "false"@ }),
            *value is NIL ==> r@ == "nil"@,
            display_text(*self, *value, r@),
    {
        match value {
            Object::NUMBER(n) => n.text(),
            Object::STRING(s) => s.clone(),
            Object::BOOL(b) => if *b {
                String::from_str("true")
            } else {
                String::from_str("false")
            },
            Object::NIL => String::from_str("nil"),
            Object::Function(f) => {
                let mut s = String::from_str("<fn ");
                s.append(f.declaration.name.lexeme.as_str());
                s.append(">");
                proof {
                    assert(s@ =~= "<fn "@ + f.declaration.name.lexeme@ + ">"@);
                }
                s
            },
            Object::Class(c) => c.name.clone(),
            Object::Instance(i) => {
                let mut s = if *i < self.instances.len() {
                    self.instances[*i].class.name.clone()
                } else {
                    String::new()
                };
                s.append(" instance");
                proof {
                    assert(s@ =~= (if *i < self.instances@.len() {
                        self.instances@[*i as int].class.name@
                    } else {
                        Seq::empty()
                    }) + " instance"@);
                }
                s
            },
        }
    }
}

} // verus!
