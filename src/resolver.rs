use vstd::prelude::*;
use std::rc::Rc;
use crate::error::{parse_error, report_text, token_place};
use crate::expr::{expr_size, exprs_size, lemma_exprs_size, Expr};
use crate::interpreter::Interpreter;
use crate::lox_class::{init_name, init_text};
use crate::lox_function::{this_name, this_text};
use crate::object::Numeric;
use crate::stmt::{
    function_size, functions_size, lemma_functions_size, lemma_stmts_size, stmt_size, stmts_size, Function, Stmt,
};
use crate::token::{Literals, Token};

verus! {

/// What kind of function body the resolver is in.
#[allow(non_camel_case_types)]
#[derive(Clone, Copy, Debug, PartialEq, Eq, Structural)]
pub enum FunctionType {
    NONE,
    FUNCTION,
    METHOD,
    INITIALIZER,
}

/// Whether the resolver is inside a class body.
#[allow(non_camel_case_types)]
#[derive(Clone, Copy, Debug, PartialEq, Eq, Structural)]
pub enum ClassType {
    NONE,
    CLASS,
}

/// The static errors.
#[derive(Clone, Copy, Debug, PartialEq, Eq, Structural)]
pub enum FaultKind {
    /// A name declared twice in one scope.
    Redeclared,
    /// A local variable read in its own initializer.
    OwnInitializer,
    /// A `return` outside any function.
    TopLevelReturn,
    /// A `return` with a value inside an initializer.
    InitializerReturn,
    /// `this` outside any class.
    ThisOutsideClass,
}

/// A static error: its kind, the token it is reported at, and the report.
pub struct StaticError {
    pub kind: FaultKind,
    pub token: Token,
    pub report: String,
}

/// The resolver's state as the model sees it: the scope stack (each scope
/// a list of names with whether each is defined yet), the kinds of the
/// enclosing function and class, and the distance table so far.
pub struct ResolveState {
    pub scopes: Seq<Seq<(Seq<char>, bool)>>,
    pub func: FunctionType,
    pub class: ClassType,
    pub table: Map<usize, usize>,
}

/// A static error as the model sees it: its kind and the id of its token.
pub type Fault = (FaultKind, usize);

/// Whether `name` is declared in a scope, and if so whether it is defined.
pub open spec fn scope_get(scope: Seq<(Seq<char>, bool)>, name: Seq<char>) -> Option<bool>
    decreases scope.len(),
{
    if scope.len() == 0 {
        None
    } else if scope.last().0 == name {
        Some(scope.last().1)
    } else {
        scope_get(scope.drop_last(), name)
    }
}

/// How many scopes out from the innermost one `name` is declared.
pub open spec fn depth_of(scopes: Seq<Seq<(Seq<char>, bool)>>, name: Seq<char>) -> Option<nat>
    decreases scopes.len(),
{
    if scopes.len() == 0 {
        None
    } else if scope_get(scopes.last(), name) is Some {
        Some(0)
    } else {
        match depth_of(scopes.drop_last(), name) {
            Some(d) => Some(d + 1),
            None => None,
        }
    }
}

/// Records the distance of the reference `name`, if it is local.
pub open spec fn with_local(st: ResolveState, name: Token) -> ResolveState {
    match depth_of(st.scopes, name.lexeme@) {
        Some(d) => ResolveState { table: st.table.insert(name.id, d as usize), ..st },
        None => st,
    }
}

pub open spec fn with_entry(st: ResolveState, name: Seq<char>, defined: bool) -> ResolveState {
    if st.scopes.len() == 0 {
        st
    } else {
        ResolveState {
            scopes: st.scopes.update(st.scopes.len() - 1, st.scopes.last().push((name, defined))),
            ..st
        }
    }
}

/// Declares `name` in the innermost scope, not yet defined.
pub open spec fn declare(st: ResolveState, name: Token) -> Result<ResolveState, Fault> {
    if st.scopes.len() > 0 && scope_get(st.scopes.last(), name.lexeme@) is Some {
        Err((FaultKind::Redeclared, name.id))
    } else {
        Ok(with_entry(st, name.lexeme@, false))
    }
}

/// Marks `name` defined in the innermost scope.
pub open spec fn define(st: ResolveState, name: Token) -> ResolveState {
    with_entry(st, name.lexeme@, true)
}

pub open spec fn push_scope(st: ResolveState) -> ResolveState {
    ResolveState { scopes: st.scopes.push(Seq::empty()), ..st }
}

pub open spec fn pop_scope(st: ResolveState) -> ResolveState {
    if st.scopes.len() > 0 {
        ResolveState { scopes: st.scopes.drop_last(), ..st }
    } else {
        st
    }
}

pub open spec fn is_nil_literal(e: Expr) -> bool {
    e matches Expr::Literal(l) && l.value is NIL
}

/// Resolution of an expression.
pub open spec fn r_expr(st: ResolveState, e: Expr) -> Result<ResolveState, Fault>
    decreases e,
{
    match e {
        Expr::Binary(b) => match r_expr(st, *b.left) {
            Ok(s) => r_expr(s, *b.right),
            Err(f) => Err(f),
        },
        Expr::Grouping(g) => r_expr(st, *g.expression),
        Expr::Literal(_) => Ok(st),
        Expr::Unary(u) => r_expr(st, *u.right),
        Expr::Variable(v) => if st.scopes.len() > 0 && scope_get(st.scopes.last(), v.name.lexeme@)
            == Some(false) {
            Err((FaultKind::OwnInitializer, v.name.id))
        } else {
            Ok(with_local(st, v.name))
        },
        Expr::Assign(a) => match r_expr(st, *a.value) {
            Ok(s) => Ok(with_local(s, a.name)),
            Err(f) => Err(f),
        },
        Expr::Logical(l) => match r_expr(st, *l.left) {
            Ok(s) => r_expr(s, *l.right),
            Err(f) => Err(f),
        },
        Expr::Call(c) => match r_expr(st, *c.callee) {
            Ok(s) => r_exprs(s, c.arguments@),
            Err(f) => Err(f),
        },
        Expr::Get(g) => r_expr(st, *g.object),
        Expr::SetProperty(p) => match r_expr(st, *p.value) {
            Ok(s) => r_expr(s, *p.object),
            Err(f) => Err(f),
        },
        Expr::This(t) => if st.class == ClassType::NONE {
            Err((FaultKind::ThisOutsideClass, t.keyword.id))
        } else {
            Ok(with_local(st, t.keyword))
        },
    }
}

/// Resolution of expressions in order.
pub open spec fn r_exprs(st: ResolveState, es: Seq<Expr>) -> Result<ResolveState, Fault>
    decreases es,
{
    if es.len() == 0 {
        Ok(st)
    } else {
        match r_expr(st, es[0]) {
            Ok(s) => r_exprs(s, es.drop_first()),
            Err(f) => Err(f),
        }
    }
}

/// Declaration and definition of parameters in order.
pub open spec fn r_params(st: ResolveState, ps: Seq<Token>) -> Result<ResolveState, Fault>
    decreases ps.len(),
{
    if ps.len() == 0 {
        Ok(st)
    } else {
        match declare(st, ps[0]) {
            Ok(s) => r_params(define(s, ps[0]), ps.drop_first()),
            Err(f) => Err(f),
        }
    }
}

/// Resolution of a function's parameters and body in a scope of their own.
pub open spec fn r_function(st: ResolveState, f: Function, kind: FunctionType) -> Result<
    ResolveState,
    Fault,
>
    decreases f,
{
    let inner = push_scope(ResolveState { func: kind, ..st });
    match r_params(inner, f.params@) {
        Ok(s) => match r_stmts(s, f.body@) {
            Ok(s2) => Ok(ResolveState { func: st.func, ..pop_scope(s2) }),
            Err(e) => Err(e),
        },
        Err(e) => Err(e),
    }
}

pub open spec fn method_kind(f: Function) -> FunctionType {
    if f.name.lexeme@ == init_name() {
        FunctionType::INITIALIZER
    } else {
        FunctionType::METHOD
    }
}

/// The declaration behind a shared one.
pub open spec fn shared(f: Rc<Function>) -> Function {
    *f
}

/// Resolution of a class's methods in order.
pub open spec fn r_methods(st: ResolveState, ms: Seq<Rc<Function>>) -> Result<ResolveState, Fault>
    decreases ms,
{
    if ms.len() == 0 {
        Ok(st)
    } else {
        match r_function(st, *ms[0], method_kind(*ms[0])) {
            Ok(s) => r_methods(s, ms.drop_first()),
            Err(f) => Err(f),
        }
    }
}

/// Resolution of a statement.
pub open spec fn r_stmt(st: ResolveState, s: Stmt) -> Result<ResolveState, Fault>
    decreases s,
{
    match s {
        Stmt::Expression(e) => r_expr(st, *e.expression),
        Stmt::Print(p) => r_expr(st, *p.expression),
        Stmt::Var(v) => match declare(st, v.name) {
            Ok(s1) => match r_expr(s1, *v.initializer) {
                Ok(s2) => Ok(define(s2, v.name)),
                Err(f) => Err(f),
            },
            Err(f) => Err(f),
        },
        Stmt::Block(b) => match r_stmts(push_scope(st), b.statements@) {
            Ok(s1) => Ok(pop_scope(s1)),
            Err(f) => Err(f),
        },
        Stmt::If(i) => match r_expr(st, *i.condition) {
            Ok(s1) => match r_stmt(s1, *i.then_branch) {
                Ok(s2) => match i.else_branch {
                    Some(e) => r_stmt(s2, *e),
                    None => Ok(s2),
                },
                Err(f) => Err(f),
            },
            Err(f) => Err(f),
        },
        Stmt::While(w) => match r_expr(st, *w.condition) {
            Ok(s1) => r_stmt(s1, *w.body),
            Err(f) => Err(f),
        },
        Stmt::Function(f) => match declare(st, f.name) {
            Ok(s1) => r_function(define(s1, f.name), *f, FunctionType::FUNCTION),
            Err(e) => Err(e),
        },
        Stmt::Return(r) => match st.func {
            FunctionType::NONE => Err((FaultKind::TopLevelReturn, r.keyword.id)),
            FunctionType::INITIALIZER => if is_nil_literal(*r.value) {
                r_expr(st, *r.value)
            } else {
                Err((FaultKind::InitializerReturn, r.keyword.id))
            },
            _ => r_expr(st, *r.value),
        },
        Stmt::Class(c) => {
            let st0 = ResolveState { class: ClassType::CLASS, ..st };
            match declare(st0, c.name) {
                Ok(s1) => {
                    let s2 = push_scope(define(s1, c.name));
                    let s3 = ResolveState {
                        scopes: s2.scopes.update(
                            s2.scopes.len() - 1,
                            seq![(this_name(), true)],
                        ),
                        ..s2
                    };
                    match r_methods(s3, c.methods@) {
                        Ok(s4) => Ok(ResolveState { class: st.class, ..pop_scope(s4) }),
                        Err(f) => Err(f),
                    }
                },
                Err(f) => Err(f),
            }
        },
    }
}

/// Resolution of statements in order.
pub open spec fn r_stmts(st: ResolveState, ss: Seq<Stmt>) -> Result<ResolveState, Fault>
    decreases ss,
{
    if ss.len() == 0 {
        Ok(st)
    } else {
        match r_stmt(st, ss[0]) {
            Ok(s) => r_stmts(s, ss.drop_first()),
            Err(f) => Err(f),
        }
    }
}

/// The model of a scope held as a vector.
pub open spec fn scope_view(v: Vec<(String, bool)>) -> Seq<(Seq<char>, bool)> {
    v@.map_values(|p: (String, bool)| (p.0@, p.1))
}

/// Whether `name` is declared in `scope`, and if so whether it is defined.
fn lookup_in_scope(scope: &Vec<(String, bool)>, name: &String) -> (r: Option<bool>)
    ensures
        r == scope_get(scope_view(*scope), name@),
{
    let mut i = scope.len();
    proof {
        assert(scope_view(*scope).subrange(0, i as int) =~= scope_view(*scope));
    }
    while i > 0
        invariant
            i <= scope@.len(),
            scope_get(scope_view(*scope), name@) == scope_get(
                scope_view(*scope).subrange(0, i as int),
                name@,
            ),
        decreases i,
    {
        let ghost prefix = scope_view(*scope).subrange(0, i as int);
        if scope[i - 1].0 == *name {
            return Some(scope[i - 1].1);
        }
        proof {
            assert(prefix.drop_last() =~= scope_view(*scope).subrange(0, i - 1));
        }
        i = i - 1;
    }
    None
}

/// The report text of a static error of kind `kind` at `token`.
/// The message of each kind of static error.
pub open spec fn fault_message(kind: FaultKind) -> Seq<char> {
    match kind {
        FaultKind::Redeclared => "Variable with this name already declared in this scope."@,
        FaultKind::OwnInitializer => "Cannot read local variable in its own initializer."@,
        FaultKind::TopLevelReturn => "Cannot return from top-level code."@,
        FaultKind::InitializerReturn => "Can not return a value from an initializer."@,
        FaultKind::ThisOutsideClass => "Cannot use 'this' outside of a class."@,
    }
}

fn static_error(kind: FaultKind, token: &Token) -> (r: StaticError)
    ensures
        r.kind == kind,
        r.token == *token,
        r.report@ == report_text(token.line, token_place(*token), fault_message(kind)),
{
    let message = match kind {
        FaultKind::Redeclared => "Variable with this name already declared in this scope.",
        FaultKind::OwnInitializer => "Cannot read local variable in its own initializer.",
        FaultKind::TopLevelReturn => "Cannot return from top-level code.",
        FaultKind::InitializerReturn => "Can not return a value from an initializer.",
        FaultKind::ThisOutsideClass => "Cannot use 'this' outside of a class.",
    };
    StaticError { kind, token: token.duplicate(), report: parse_error(token, message) }
}

/// `r` is what the model gives: the state it ends in, or its fault.
pub open spec fn follows(
    spec: Result<ResolveState, Fault>,
    r: Result<(), StaticError>,
    after: ResolveState,
) -> bool {
    match spec {
        Ok(st) => r is Ok && after == st,
        Err(f) => r matches Err(e) && e.kind == f.0 && e.token.id == f.1 && e.report@ == report_text(
            e.token.line,
            token_place(e.token),
            fault_message(e.kind),
        ),
    }
}

/// The static pass: computes, for each local variable reference, how many
/// scopes out its declaration stands, and rejects statically invalid
/// programs.
pub struct Resolver {
    pub scopes: Vec<Vec<(String, bool)>>,
    pub current_func: FunctionType,
    pub current_class: ClassType,
}

impl Resolver {
    /// The model of this resolver, with distance table `table`.
    pub open spec fn state(&self, table: Map<usize, usize>) -> ResolveState {
        ResolveState {
            scopes: self.scopes@.map_values(|v: Vec<(String, bool)>| scope_view(v)),
            func: self.current_func,
            class: self.current_class,
            table,
        }
    }

    pub fn new() -> (r: Resolver)
        ensures
            forall|t: Map<usize, usize>| #[trigger] r.state(t) == fresh_state(t),
    {
        let r = Resolver {
            scopes: Vec::new(),
            current_func: FunctionType::NONE,
            current_class: ClassType::NONE,
        };
        proof {
            assert forall|t: Map<usize, usize>| #[trigger] r.state(t) == fresh_state(t) by {
                assert(r.state(t).scopes =~= Seq::empty());
            }
        }
        r
    }

    /// Resolves a whole program, recording each local reference's distance
    /// in `interpreter`.
    pub fn resolves<N: Numeric>(&mut self, interpreter: &mut Interpreter<N>, statements: &Vec<Stmt>) -> (r: Result<(), StaticError>)
        ensures
            follows(
                r_stmts(old(self).state(old(interpreter).locals@), statements@),
                r,
                final(self).state(final(interpreter).locals@),
            ),
            final(interpreter).only_table_changed(old(interpreter)),
        decreases stmts_size(statements@) + 1,
    {
        let ghost st0 = self.state(interpreter.locals@);
        let ghost interp0 = *interpreter;
        let mut i: usize = 0;
        proof {
            assert(statements@.subrange(0, statements@.len() as int) =~= statements@);
        }
        while i < statements.len()
            invariant
                i <= statements@.len(),
                r_stmts(st0, statements@) == r_stmts(
                    self.state(interpreter.locals@),
                    statements@.subrange(i as int, statements@.len() as int),
                ),
                st0 == old(self).state(old(interpreter).locals@),
                interp0 == *old(interpreter),
                interpreter.only_table_changed(old(interpreter)),
            decreases statements@.len() - i,
        {
            let ghost rest = statements@.subrange(i as int, statements@.len() as int);
            proof {
                lemma_stmts_size(statements@, i as int);
                assert(rest[0] == statements@[i as int]);
                assert(rest.drop_first() =~= statements@.subrange(i + 1, statements@.len() as int));
            }
            let outcome = self.resolve_stmt(interpreter, &statements[i]);
            if outcome.is_err() {
                return outcome;
            }
            i = i + 1;
        }
        Ok(())
    }

    fn push_entry(&mut self, name: String, defined: bool)
        ensures
            forall|t: Map<usize, usize>|
                #![auto]
                final(self).state(t) == with_entry(old(self).state(t), name@, defined),
    {
        let n = self.scopes.len();
        if n > 0 {
            self.scopes[n - 1].push((name, defined));
            proof {
                assert forall|t: Map<usize, usize>|
                    #![auto]
                    self.state(t) == with_entry(old(self).state(t), name@, defined) by {
                    let a = self.state(t).scopes;
                    let b = with_entry(old(self).state(t), name@, defined).scopes;
                    assert forall|j: int| 0 <= j < a.len() implies a[j] == b[j] by {
                        if j == n - 1 {
                            assert(scope_view(self.scopes@[j]) =~= scope_view(
                                old(self).scopes@[j],
                            ).push((name@, defined)));
                        }
                    }
                    assert(a =~= b);
                }
            }
        }
    }

    fn begin_scope(&mut self)
        ensures
            forall|t: Map<usize, usize>|
                #![auto]
                final(self).state(t) == push_scope(old(self).state(t)),
    {
        self.scopes.push(Vec::new());
        proof {
            assert forall|t: Map<usize, usize>|
                #![auto]
                self.state(t) == push_scope(old(self).state(t)) by {
                assert(scope_view(self.scopes@.last()) =~= Seq::empty());
                assert(self.state(t).scopes =~= push_scope(old(self).state(t)).scopes);
            }
        }
    }

    fn end_scope(&mut self)
        ensures
            forall|t: Map<usize, usize>|
                #![auto]
                final(self).state(t) == pop_scope(old(self).state(t)),
    {
        self.scopes.pop();
        proof {
            assert forall|t: Map<usize, usize>|
                #![auto]
                self.state(t) == pop_scope(old(self).state(t)) by {
                if old(self).scopes@.len() > 0 {
                    assert(self.state(t).scopes =~= pop_scope(old(self).state(t)).scopes);
                }
            }
        }
    }

    fn declare(&mut self, name: &Token) -> (r: Result<(), StaticError>)
        ensures
            forall|t: Map<usize, usize>|
                #![auto]
                follows(declare(old(self).state(t), *name), r, final(self).state(t)),
    {
        let n = self.scopes.len();
        if n > 0 {
            let found = lookup_in_scope(&self.scopes[n - 1], &name.lexeme);
            if found.is_some() {
                return Err(static_error(FaultKind::Redeclared, name));
            }
        }
        self.push_entry(name.lexeme.clone(), false);
        Ok(())
    }

    fn define(&mut self, name: &Token)
        ensures
            forall|t: Map<usize, usize>|
                #![auto]
                final(self).state(t) == define(old(self).state(t), *name),
    {
        self.push_entry(name.lexeme.clone(), true);
    }

    fn resolve_local<N: Numeric>(&mut self, interpreter: &mut Interpreter<N>, name: &Token)
        ensures
            final(self).state(final(interpreter).locals@) == with_local(
                old(self).state(old(interpreter).locals@),
                *name,
            ),
            final(interpreter).only_table_changed(old(interpreter)),
            *final(self) == *old(self),
    {
        let ghost st = self.state(interpreter.locals@);
        let len = self.scopes.len();
        let mut k = len;
        proof {
            assert(st.scopes.subrange(0, k as int) =~= st.scopes);
        }
        while k > 0
            invariant
                k <= len,
                len == self.scopes@.len(),
                st == self.state(interpreter.locals@),
                *interpreter == *old(interpreter),
                *self == *old(self),
                depth_of(st.scopes, name.lexeme@) == match depth_of(
                    st.scopes.subrange(0, k as int),
                    name.lexeme@,
                ) {
                    Some(x) => Some(x + (len - k) as nat),
                    None => None,
                },
            decreases k,
        {
            let ghost prefix = st.scopes.subrange(0, k as int);
            proof {
                assert(prefix.last() == scope_view(self.scopes@[k - 1]));
            }
            if lookup_in_scope(&self.scopes[k - 1], &name.lexeme).is_some() {
                interpreter.resolve(name.id, len - k);
                return;
            }
            proof {
                assert(prefix.drop_last() =~= st.scopes.subrange(0, k - 1));
            }
            k = k - 1;
        }
    }

    fn resolve_expr<N: Numeric>(&mut self, interpreter: &mut Interpreter<N>, expr: &Expr) -> (r: Result<(), StaticError>)
        ensures
            follows(
                r_expr(old(self).state(old(interpreter).locals@), *expr),
                r,
                final(self).state(final(interpreter).locals@),
            ),
            final(interpreter).only_table_changed(old(interpreter)),
        decreases expr_size(*expr),
    {
        match expr {
            Expr::Binary(b) => {
                self.resolve_expr(interpreter, &b.left)?;
                self.resolve_expr(interpreter, &b.right)
            },
            Expr::Grouping(g) => self.resolve_expr(interpreter, &g.expression),
            Expr::Literal(_) => Ok(()),
            Expr::Unary(u) => self.resolve_expr(interpreter, &u.right),
            Expr::Variable(v) => {
                let n = self.scopes.len();
                if n > 0 {
                    let found = lookup_in_scope(&self.scopes[n - 1], &v.name.lexeme);
                    if found == Some(false) {
                        return Err(static_error(FaultKind::OwnInitializer, &v.name));
                    }
                }
                self.resolve_local(interpreter, &v.name);
                Ok(())
            },
            Expr::Assign(a) => {
                self.resolve_expr(interpreter, &a.value)?;
                self.resolve_local(interpreter, &a.name);
                Ok(())
            },
            Expr::Logical(l) => {
                self.resolve_expr(interpreter, &l.left)?;
                self.resolve_expr(interpreter, &l.right)
            },
            Expr::Call(c) => {
                self.resolve_expr(interpreter, &c.callee)?;
                let ghost mid = self.state(interpreter.locals@);
                let ghost interp_mid = *interpreter;
                let args = &c.arguments;
                let mut i: usize = 0;
                proof {
                    assert(args@.subrange(0, args@.len() as int) =~= args@);
                }
                while i < args.len()
                    invariant
                        *expr == Expr::Call(*c),
                        expr_size(*expr) > exprs_size(args@),
                        r_expr(old(self).state(old(interpreter).locals@), *expr) == r_exprs(mid, args@),
                        i <= args@.len(),
                        r_exprs(mid, args@) == r_exprs(
                            self.state(interpreter.locals@),
                            args@.subrange(i as int, args@.len() as int),
                        ),
                        interpreter.only_table_changed(old(interpreter)),
                    decreases args@.len() - i,
                {
                    let ghost rest = args@.subrange(i as int, args@.len() as int);
                    proof {
                        lemma_exprs_size(args@, i as int);
                        assert(rest[0] == args@[i as int]);
                        assert(rest.drop_first() =~= args@.subrange(i + 1, args@.len() as int));
                    }
                    let outcome = self.resolve_expr(interpreter, &args[i]);
                    if outcome.is_err() {
                        return outcome;
                    }
                    i = i + 1;
                }
                Ok(())
            },
            Expr::Get(g) => self.resolve_expr(interpreter, &g.object),
            Expr::SetProperty(p) => {
                self.resolve_expr(interpreter, &p.value)?;
                self.resolve_expr(interpreter, &p.object)
            },
            Expr::This(t) => {
                if self.current_class == ClassType::NONE {
                    return Err(static_error(FaultKind::ThisOutsideClass, &t.keyword));
                }
                self.resolve_local(interpreter, &t.keyword);
                Ok(())
            },
        }
    }

    fn resolve_function<N: Numeric>(&mut self, interpreter: &mut Interpreter<N>, function: &Function, kind: FunctionType) -> (r: Result<(), StaticError>)
        ensures
            follows(
                r_function(old(self).state(old(interpreter).locals@), *function, kind),
                r,
                final(self).state(final(interpreter).locals@),
            ),
            final(interpreter).only_table_changed(old(interpreter)),
        decreases function_size(*function),
    {
        let enclosing = self.current_func;
        self.current_func = kind;
        self.begin_scope();
        let ghost inner = self.state(interpreter.locals@);
        let ghost st0 = old(self).state(old(interpreter).locals@);
        proof {
            assert(inner == push_scope(ResolveState { func: kind, ..st0 }));
            assert(r_function(st0, *function, kind) == match r_params(inner, function.params@) {
                Ok(s) => match r_stmts(s, function.body@) {
                    Ok(s2) => Ok(ResolveState { func: st0.func, ..pop_scope(s2) }),
                    Err(e) => Err(e),
                },
                Err(e) => Err(e),
            });
        }
        let params = &function.params;
        let mut i: usize = 0;
        proof {
            assert(params@.subrange(0, params@.len() as int) =~= params@);
        }
        while i < params.len()
            invariant
                i <= params@.len(),
                r_params(inner, params@) == r_params(
                    self.state(interpreter.locals@),
                    params@.subrange(i as int, params@.len() as int),
                ),
                interpreter.only_table_changed(old(interpreter)),
                self.current_func == kind,
                enclosing == old(self).current_func,
                st0 == old(self).state(old(interpreter).locals@),
                inner == push_scope(ResolveState { func: kind, ..st0 }),
                r_function(st0, *function, kind) == match r_params(inner, params@) {
                    Ok(s) => match r_stmts(s, function.body@) {
                        Ok(s2) => Ok(ResolveState { func: st0.func, ..pop_scope(s2) }),
                        Err(e) => Err(e),
                    },
                    Err(e) => Err(e),
                },
            decreases params@.len() - i,
        {
            let ghost rest = params@.subrange(i as int, params@.len() as int);
            proof {
                assert(rest[0] == params@[i as int]);
                assert(rest.drop_first() =~= params@.subrange(i + 1, params@.len() as int));
            }
            self.declare(&params[i])?;
            self.define(&params[i]);
            i = i + 1;
        }
        proof {
            assert(params@.subrange(i as int, params@.len() as int) =~= Seq::<Token>::empty());
        }
        let ghost s1 = self.state(interpreter.locals@);
        self.resolve_stmts(interpreter, &function.body)?;
        let ghost s2 = self.state(interpreter.locals@);
        assert(r_stmts(s1, function.body@) == Ok::<ResolveState, Fault>(s2));
        self.end_scope();
        assert(self.state(interpreter.locals@) == pop_scope(s2));
        self.current_func = enclosing;
        assert(self.state(interpreter.locals@) == ResolveState { func: st0.func, ..pop_scope(s2) });
        Ok(())
    }

    fn resolve_stmts<N: Numeric>(&mut self, interpreter: &mut Interpreter<N>, statements: &Vec<Stmt>) -> (r: Result<(), StaticError>)
        ensures
            follows(
                r_stmts(old(self).state(old(interpreter).locals@), statements@),
                r,
                final(self).state(final(interpreter).locals@),
            ),
            final(interpreter).only_table_changed(old(interpreter)),
        decreases stmts_size(statements@) + 1,
    {
        let ghost st0 = self.state(interpreter.locals@);
        let mut i: usize = 0;
        proof {
            assert(statements@.subrange(0, statements@.len() as int) =~= statements@);
        }
        while i < statements.len()
            invariant
                i <= statements@.len(),
                r_stmts(st0, statements@) == r_stmts(
                    self.state(interpreter.locals@),
                    statements@.subrange(i as int, statements@.len() as int),
                ),
                st0 == old(self).state(old(interpreter).locals@),
                interpreter.only_table_changed(old(interpreter)),
            decreases statements@.len() - i,
        {
            let ghost rest = statements@.subrange(i as int, statements@.len() as int);
            proof {
                lemma_stmts_size(statements@, i as int);
                assert(rest[0] == statements@[i as int]);
                assert(rest.drop_first() =~= statements@.subrange(i + 1, statements@.len() as int));
            }
            let outcome = self.resolve_stmt(interpreter, &statements[i]);
            if outcome.is_err() {
                return outcome;
            }
            i = i + 1;
        }
        Ok(())
    }

    fn resolve_stmt<N: Numeric>(&mut self, interpreter: &mut Interpreter<N>, stmt: &Stmt) -> (r: Result<(), StaticError>)
        ensures
            follows(
                r_stmt(old(self).state(old(interpreter).locals@), *stmt),
                r,
                final(self).state(final(interpreter).locals@),
            ),
            final(interpreter).only_table_changed(old(interpreter)),
        decreases stmt_size(*stmt),
    {
        match stmt {
            Stmt::Expression(s) => self.resolve_expr(interpreter, &s.expression),
            Stmt::Print(s) => self.resolve_expr(interpreter, &s.expression),
            Stmt::Var(s) => {
                self.declare(&s.name)?;
                self.resolve_expr(interpreter, &s.initializer)?;
                self.define(&s.name);
                Ok(())
            },
            Stmt::Block(b) => {
                self.begin_scope();
                self.resolve_stmts(interpreter, &b.statements)?;
                let ghost s1 = self.state(interpreter.locals@);
                self.end_scope();
                assert(self.state(interpreter.locals@) == pop_scope(s1));
                Ok(())
            },
            Stmt::If(s) => {
                self.resolve_expr(interpreter, &s.condition)?;
                self.resolve_stmt(interpreter, &s.then_branch)?;
                match &s.else_branch {
                    Some(e) => self.resolve_stmt(interpreter, e),
                    None => Ok(()),
                }
            },
            Stmt::While(s) => {
                self.resolve_expr(interpreter, &s.condition)?;
                self.resolve_stmt(interpreter, &s.body)
            },
            Stmt::Function(f) => {
                self.declare(&f.name)?;
                self.define(&f.name);
                self.resolve_function(interpreter, f, FunctionType::FUNCTION)
            },
            Stmt::Return(s) => match self.current_func {
                FunctionType::NONE => Err(static_error(FaultKind::TopLevelReturn, &s.keyword)),
                FunctionType::INITIALIZER => {
                    let nil = match &*s.value {
                        Expr::Literal(l) => match l.value {
                            Literals::NIL => true,
                            _ => false,
                        },
                        _ => false,
                    };
                    if nil {
                        self.resolve_expr(interpreter, &s.value)
                    } else {
                        Err(static_error(FaultKind::InitializerReturn, &s.keyword))
                    }
                },
                _ => self.resolve_expr(interpreter, &s.value),
            },
            Stmt::Class(c) => {
                let enclosing = self.current_class;
                self.current_class = ClassType::CLASS;
                self.declare(&c.name)?;
                self.define(&c.name);
                self.begin_scope();
                let ghost before_this = self.state(interpreter.locals@);
                self.push_entry(this_text(), true);
                proof {
                    assert(seq![(this_name(), true)] =~= Seq::<(Seq<char>, bool)>::empty().push(
                        (this_name(), true),
                    ));
                }
                let ghost start = self.state(interpreter.locals@);
                proof {
                    assert(start.scopes =~= before_this.scopes.update(
                        before_this.scopes.len() - 1,
                        seq![(this_name(), true)],
                    ));
                    assert(stmt_size(*stmt) == 1 + functions_size(c.methods@));
                }
                let init = init_text();
                let methods = &c.methods;
                let mut i: usize = 0;
                proof {
                    assert(methods@.subrange(0, methods@.len() as int) =~= methods@);
                }
                while i < methods.len()
                    invariant
                        *stmt == Stmt::Class(*c),
                        i <= methods@.len(),
                        init@ == init_name(),
                        r_methods(start, methods@) == r_methods(
                            self.state(interpreter.locals@),
                            methods@.subrange(i as int, methods@.len() as int),
                        ),
                        interpreter.only_table_changed(old(interpreter)),
                        enclosing == old(self).current_class,
                        stmt_size(*stmt) == 1 + functions_size(methods@),
                        r_stmt(old(self).state(old(interpreter).locals@), *stmt) == match r_methods(
                            start,
                            methods@,
                        ) {
                            Ok(s4) => Ok(ResolveState { class: old(self).current_class, ..pop_scope(s4) }),
                            Err(f) => Err(f),
                        },
                    decreases methods@.len() - i,
                {
                    let ghost rest = methods@.subrange(i as int, methods@.len() as int);
                    proof {
                        lemma_functions_size(methods@, i as int);
                        assert(rest[0] == methods@[i as int]);
                        assert(rest.drop_first() =~= methods@.subrange(i + 1, methods@.len() as int));
                    }
                    let kind = if methods[i].name.lexeme == init {
                        FunctionType::INITIALIZER
                    } else {
                        FunctionType::METHOD
                    };
                    self.resolve_function(interpreter, &methods[i], kind)?;
                    i = i + 1;
                }
                proof {
                    assert(methods@.subrange(i as int, methods@.len() as int) =~= Seq::<Rc<Function>>::empty());
                }
                let ghost s4 = self.state(interpreter.locals@);
                self.end_scope();
                assert(self.state(interpreter.locals@) == pop_scope(s4));
                self.current_class = enclosing;
                assert(self.state(interpreter.locals@) == ResolveState {
                    class: old(self).current_class,
                    ..pop_scope(s4)
                });
                Ok(())
            },
        }
    }
}


/// `st` with its distance table replaced by `t`.
pub open spec fn with_table(st: ResolveState, t: Map<usize, usize>) -> ResolveState {
    ResolveState { table: t, ..st }
}

/// A fresh resolver's state over table `t`.
pub open spec fn fresh_state(t: Map<usize, usize>) -> ResolveState {
    ResolveState { scopes: Seq::empty(), func: FunctionType::NONE, class: ClassType::NONE, table: t }
}

/// An outcome computed over an empty table, moved onto table `t`: the
/// entries recorded are laid over `t`.
pub open spec fn lifted(r: Result<ResolveState, Fault>, t: Map<usize, usize>) -> Result<
    ResolveState,
    Fault,
> {
    match r {
        Ok(s) => Ok(with_table(s, t.union_prefer_right(s.table))),
        Err(f) => Err(f),
    }
}

proof fn lemma_chain(t: Map<usize, usize>, d: Map<usize, usize>, r: Result<ResolveState, Fault>)
    ensures
        lifted(lifted(r, d), t) == lifted(r, t.union_prefer_right(d)),
{
    if let Ok(s) = r {
        assert(t.union_prefer_right(d.union_prefer_right(s.table)) =~= t.union_prefer_right(
            d,
        ).union_prefer_right(s.table));
    }
}

proof fn lemma_keep_table(st: ResolveState, t: Map<usize, usize>)
    ensures
        t.union_prefer_right(Map::<usize, usize>::empty()) == t,
        with_table(st, st.table) == st,
{
    assert(t.union_prefer_right(Map::<usize, usize>::empty()) =~= t);
}

proof fn lemma_local_lifted(st: ResolveState, t: Map<usize, usize>, name: Token)
    ensures
        with_local(with_table(st, t), name) == with_table(
            with_local(with_table(st, Map::empty()), name),
            t.union_prefer_right(with_local(with_table(st, Map::empty()), name).table),
        ),
{
    lemma_keep_table(st, t);
    if let Some(d) = depth_of(st.scopes, name.lexeme@) {
        assert(t.union_prefer_right(Map::<usize, usize>::empty().insert(name.id, d as usize))
            =~= t.insert(name.id, d as usize));
    }
}

proof fn lemma_declare_lifted(st: ResolveState, t: Map<usize, usize>, name: Token)
    ensures
        declare(with_table(st, t), name) == lifted(declare(with_table(st, Map::empty()), name), t),
        define(with_table(st, t), name) == with_table(define(with_table(st, Map::empty()), name), t),
{
    lemma_keep_table(st, t);
}

/// Threads the table-independence of a first step `first` (over `st`) and
/// of the step that follows it into that of the two in sequence.
proof fn lemma_then(
    t: Map<usize, usize>,
    first_t: Result<ResolveState, Fault>,
    first_e: Result<ResolveState, Fault>,
    rest_t: Result<ResolveState, Fault>,
    rest_d: Result<ResolveState, Fault>,
    rest_e: Result<ResolveState, Fault>,
)
    requires
        first_t == lifted(first_e, t),
        first_e matches Ok(s1) ==> rest_t == lifted(rest_e, t.union_prefer_right(s1.table))
            && rest_d == lifted(rest_e, s1.table),
    ensures
        first_e matches Ok(s1) ==> rest_t == lifted(rest_d, t),
{
    if let Ok(s1) = first_e {
        lemma_chain(t, s1.table, rest_e);
    }
}

/// Resolution of an expression does not look at the table it extends.
pub proof fn lemma_expr_table(st: ResolveState, t: Map<usize, usize>, e: Expr)
    ensures
        r_expr(with_table(st, t), e) == lifted(r_expr(with_table(st, Map::empty()), e), t),
    decreases e,
{
    let st_e = with_table(st, Map::empty());
    lemma_keep_table(st, t);
    match e {
        Expr::Binary(b) => {
            lemma_expr_table(st, t, *b.left);
            if let Ok(s1) = r_expr(st_e, *b.left) {
                lemma_expr_table(s1, t.union_prefer_right(s1.table), *b.right);
                lemma_expr_table(s1, s1.table, *b.right);
                lemma_keep_table(s1, t);
                lemma_then(
                    t,
                    r_expr(with_table(st, t), *b.left),
                    r_expr(st_e, *b.left),
                    r_expr(with_table(s1, t.union_prefer_right(s1.table)), *b.right),
                    r_expr(s1, *b.right),
                    r_expr(with_table(s1, Map::empty()), *b.right),
                );
            }
        },
        Expr::Grouping(g) => lemma_expr_table(st, t, *g.expression),
        Expr::Literal(_) => {},
        Expr::Unary(u) => lemma_expr_table(st, t, *u.right),
        Expr::Variable(v) => lemma_local_lifted(st, t, v.name),
        Expr::Assign(a) => {
            lemma_expr_table(st, t, *a.value);
            if let Ok(s1) = r_expr(st_e, *a.value) {
                lemma_local_lifted(s1, t.union_prefer_right(s1.table), a.name);
                lemma_local_lifted(s1, s1.table, a.name);
                lemma_keep_table(s1, t);
                let w = with_local(with_table(s1, Map::empty()), a.name);
                assert(t.union_prefer_right(s1.table).union_prefer_right(w.table) =~= t.union_prefer_right(
                    s1.table.union_prefer_right(w.table),
                ));
            }
        },
        Expr::Logical(l) => {
            lemma_expr_table(st, t, *l.left);
            if let Ok(s1) = r_expr(st_e, *l.left) {
                lemma_expr_table(s1, t.union_prefer_right(s1.table), *l.right);
                lemma_expr_table(s1, s1.table, *l.right);
                lemma_keep_table(s1, t);
                lemma_then(
                    t,
                    r_expr(with_table(st, t), *l.left),
                    r_expr(st_e, *l.left),
                    r_expr(with_table(s1, t.union_prefer_right(s1.table)), *l.right),
                    r_expr(s1, *l.right),
                    r_expr(with_table(s1, Map::empty()), *l.right),
                );
            }
        },
        Expr::Call(c) => {
            lemma_expr_table(st, t, *c.callee);
            if let Ok(s1) = r_expr(st_e, *c.callee) {
                lemma_exprs_table(s1, t.union_prefer_right(s1.table), c.arguments@);
                lemma_exprs_table(s1, s1.table, c.arguments@);
                lemma_keep_table(s1, t);
                lemma_then(
                    t,
                    r_expr(with_table(st, t), *c.callee),
                    r_expr(st_e, *c.callee),
                    r_exprs(with_table(s1, t.union_prefer_right(s1.table)), c.arguments@),
                    r_exprs(s1, c.arguments@),
                    r_exprs(with_table(s1, Map::empty()), c.arguments@),
                );
            }
        },
        Expr::Get(g) => lemma_expr_table(st, t, *g.object),
        Expr::SetProperty(p) => {
            lemma_expr_table(st, t, *p.value);
            if let Ok(s1) = r_expr(st_e, *p.value) {
                lemma_expr_table(s1, t.union_prefer_right(s1.table), *p.object);
                lemma_expr_table(s1, s1.table, *p.object);
                lemma_keep_table(s1, t);
                lemma_then(
                    t,
                    r_expr(with_table(st, t), *p.value),
                    r_expr(st_e, *p.value),
                    r_expr(with_table(s1, t.union_prefer_right(s1.table)), *p.object),
                    r_expr(s1, *p.object),
                    r_expr(with_table(s1, Map::empty()), *p.object),
                );
            }
        },
        Expr::This(th) => lemma_local_lifted(st, t, th.keyword),
    }
}

pub proof fn lemma_exprs_table(st: ResolveState, t: Map<usize, usize>, es: Seq<Expr>)
    ensures
        r_exprs(with_table(st, t), es) == lifted(r_exprs(with_table(st, Map::empty()), es), t),
    decreases es,
{
    lemma_keep_table(st, t);
    if es.len() > 0 {
        let st_e = with_table(st, Map::empty());
        lemma_expr_table(st, t, es[0]);
        if let Ok(s1) = r_expr(st_e, es[0]) {
            lemma_exprs_table(s1, t.union_prefer_right(s1.table), es.drop_first());
            lemma_exprs_table(s1, s1.table, es.drop_first());
            lemma_keep_table(s1, t);
            lemma_then(
                t,
                r_expr(with_table(st, t), es[0]),
                r_expr(st_e, es[0]),
                r_exprs(with_table(s1, t.union_prefer_right(s1.table)), es.drop_first()),
                r_exprs(s1, es.drop_first()),
                r_exprs(with_table(s1, Map::empty()), es.drop_first()),
            );
        }
    }
}

proof fn lemma_frame_ops(x: ResolveState, t: Map<usize, usize>, n: Token, k: FunctionType, c: ClassType)
    ensures
        define(with_table(x, t), n) == with_table(define(x, n), t),
        push_scope(with_table(x, t)) == with_table(push_scope(x), t),
        pop_scope(with_table(x, t)) == with_table(pop_scope(x), t),
        (ResolveState { func: k, ..with_table(x, t) }) == with_table((ResolveState { func: k, ..x }), t),
        (ResolveState { class: c, ..with_table(x, t) }) == with_table((ResolveState { class: c, ..x }), t),
        define(x, n).table == x.table,
        push_scope(x).table == x.table,
        pop_scope(x).table == x.table,
{
}

pub proof fn lemma_params_table(st: ResolveState, t: Map<usize, usize>, ps: Seq<Token>)
    ensures
        r_params(with_table(st, t), ps) == lifted(r_params(with_table(st, Map::empty()), ps), t),
        r_params(with_table(st, Map::empty()), ps) matches Ok(s) ==> s.table == Map::<usize, usize>::empty(),
    decreases ps.len(),
{
    lemma_keep_table(st, t);
    if ps.len() > 0 {
        let st_e = with_table(st, Map::empty());
        lemma_declare_lifted(st, t, ps[0]);
        if let Ok(s1) = declare(st_e, ps[0]) {
            lemma_frame_ops(s1, t, ps[0], FunctionType::NONE, ClassType::NONE);
            let d = define(s1, ps[0]);
            lemma_params_table(d, t, ps.drop_first());
            lemma_keep_table(d, t);
            assert(with_table(d, Map::empty()) == d);
        }
    }
}

pub proof fn lemma_function_table(st: ResolveState, t: Map<usize, usize>, f: Function, kind: FunctionType)
    ensures
        r_function(with_table(st, t), f, kind) == lifted(r_function(with_table(st, Map::empty()), f, kind), t),
    decreases f,
{
    let st_e = with_table(st, Map::empty());
    lemma_keep_table(st, t);
    let inner_e = push_scope(ResolveState { func: kind, ..st_e });
    let inner_t = push_scope(ResolveState { func: kind, ..with_table(st, t) });
    assert(inner_t == with_table(inner_e, t));
    assert(inner_e == with_table(inner_e, Map::empty()));
    lemma_params_table(inner_e, t, f.params@);
    if let Ok(s1) = r_params(inner_e, f.params@) {
        lemma_stmts_table(s1, t.union_prefer_right(s1.table), f.body@);
        lemma_stmts_table(s1, s1.table, f.body@);
        lemma_keep_table(s1, t);
        lemma_then(
            t,
            r_params(inner_t, f.params@),
            r_params(inner_e, f.params@),
            r_stmts(with_table(s1, t.union_prefer_right(s1.table)), f.body@),
            r_stmts(s1, f.body@),
            r_stmts(with_table(s1, Map::empty()), f.body@),
        );
        if let Ok(s2) = r_stmts(s1, f.body@) {
            lemma_frame_ops(s2, t.union_prefer_right(s2.table), f.name, st.func, ClassType::NONE);
            lemma_keep_table(s2, t);
        }
    }
}

pub proof fn lemma_methods_table(st: ResolveState, t: Map<usize, usize>, ms: Seq<Rc<Function>>)
    ensures
        r_methods(with_table(st, t), ms) == lifted(r_methods(with_table(st, Map::empty()), ms), t),
    decreases ms,
{
    lemma_keep_table(st, t);
    if ms.len() > 0 {
        let st_e = with_table(st, Map::empty());
        let k = method_kind(shared(ms[0]));
        lemma_function_table(st, t, shared(ms[0]), k);
        if let Ok(s1) = r_function(st_e, shared(ms[0]), k) {
            lemma_methods_table(s1, t.union_prefer_right(s1.table), ms.drop_first());
            lemma_methods_table(s1, s1.table, ms.drop_first());
            lemma_keep_table(s1, t);
            lemma_then(
                t,
                r_function(with_table(st, t), shared(ms[0]), k),
                r_function(st_e, shared(ms[0]), k),
                r_methods(with_table(s1, t.union_prefer_right(s1.table)), ms.drop_first()),
                r_methods(s1, ms.drop_first()),
                r_methods(with_table(s1, Map::empty()), ms.drop_first()),
            );
        }
    }
}

pub proof fn lemma_stmts_table(st: ResolveState, t: Map<usize, usize>, ss: Seq<Stmt>)
    ensures
        r_stmts(with_table(st, t), ss) == lifted(r_stmts(with_table(st, Map::empty()), ss), t),
    decreases ss,
{
    lemma_keep_table(st, t);
    if ss.len() > 0 {
        let st_e = with_table(st, Map::empty());
        lemma_stmt_table(st, t, ss[0]);
        if let Ok(s1) = r_stmt(st_e, ss[0]) {
            lemma_stmts_table(s1, t.union_prefer_right(s1.table), ss.drop_first());
            lemma_stmts_table(s1, s1.table, ss.drop_first());
            lemma_keep_table(s1, t);
            lemma_then(
                t,
                r_stmt(with_table(st, t), ss[0]),
                r_stmt(st_e, ss[0]),
                r_stmts(with_table(s1, t.union_prefer_right(s1.table)), ss.drop_first()),
                r_stmts(s1, ss.drop_first()),
                r_stmts(with_table(s1, Map::empty()), ss.drop_first()),
            );
        }
    }
}

pub proof fn lemma_stmt_table(st: ResolveState, t: Map<usize, usize>, s: Stmt)
    ensures
        r_stmt(with_table(st, t), s) == lifted(r_stmt(with_table(st, Map::empty()), s), t),
    decreases s,
{
    let st_e = with_table(st, Map::empty());
    let st_t = with_table(st, t);
    lemma_keep_table(st, t);
    match s {
        Stmt::Expression(e) => lemma_expr_table(st, t, *e.expression),
        Stmt::Print(p) => lemma_expr_table(st, t, *p.expression),
        Stmt::Var(v) => lemma_var_table(st, t, v),
        Stmt::Block(b) => lemma_block_table(st, t, b),
        Stmt::If(i) => lemma_if_table(st, t, i),
        Stmt::While(w) => lemma_while_table(st, t, w),
        Stmt::Function(f) => {
            let fd = shared(f);
            lemma_declare_lifted(st, t, fd.name);
            if let Ok(s1) = declare(st_e, fd.name) {
                lemma_frame_ops(s1, t, fd.name, FunctionType::NONE, ClassType::NONE);
                let d = define(s1, fd.name);
                assert(d == with_table(d, Map::empty()));
                lemma_function_table(d, t, fd, FunctionType::FUNCTION);
            }
        },
        Stmt::Return(r) => {
            lemma_expr_table(st, t, *r.value);
        },
        Stmt::Class(c) => lemma_class_table(st, t, c),
    }
}

proof fn lemma_var_table(st: ResolveState, t: Map<usize, usize>, v: crate::stmt::Var)
    ensures
        r_stmt(with_table(st, t), Stmt::Var(v)) == lifted(
            r_stmt(with_table(st, Map::empty()), Stmt::Var(v)),
            t,
        ),
    decreases v,
{
    let s = Stmt::Var(v);
    let st_e = with_table(st, Map::empty());
    let st_t = with_table(st, t);
    lemma_keep_table(st, t);
        lemma_declare_lifted(st, t, v.name);
        if let Ok(s1) = declare(st_e, v.name) {
            assert(s1 == with_table(s1, Map::empty()));
            lemma_expr_table(s1, t, *v.initializer);
            if let Ok(s2) = r_expr(s1, *v.initializer) {
                lemma_frame_ops(s2, t.union_prefer_right(s2.table), v.name, FunctionType::NONE, ClassType::NONE);
                lemma_keep_table(s2, t);
            }
        }
}

proof fn lemma_block_table(st: ResolveState, t: Map<usize, usize>, b: crate::stmt::Block)
    ensures
        r_stmt(with_table(st, t), Stmt::Block(b)) == lifted(
            r_stmt(with_table(st, Map::empty()), Stmt::Block(b)),
            t,
        ),
    decreases b,
{
    let s = Stmt::Block(b);
    let st_e = with_table(st, Map::empty());
    let st_t = with_table(st, t);
    lemma_keep_table(st, t);
        let p = push_scope(st);
        assert(push_scope(st_t) == with_table(p, t));
        assert(push_scope(st_e) == with_table(p, Map::empty()));
        lemma_stmts_table(p, t, b.statements@);
        if let Ok(s1) = r_stmts(with_table(p, Map::empty()), b.statements@) {
            assert(pop_scope(with_table(s1, t.union_prefer_right(s1.table))) == with_table(
                pop_scope(s1),
                t.union_prefer_right(s1.table),
            ));
            lemma_keep_table(s1, t);
        }
}

proof fn lemma_if_table(st: ResolveState, t: Map<usize, usize>, i: crate::stmt::If)
    ensures
        r_stmt(with_table(st, t), Stmt::If(i)) == lifted(
            r_stmt(with_table(st, Map::empty()), Stmt::If(i)),
            t,
        ),
    decreases i,
{
    let s = Stmt::If(i);
    let st_e = with_table(st, Map::empty());
    let st_t = with_table(st, t);
    lemma_keep_table(st, t);
        lemma_expr_table(st, t, *i.condition);
        if let Ok(s1) = r_expr(st_e, *i.condition) {
            let d1 = s1.table;
            let t1 = t.union_prefer_right(d1);
            lemma_stmt_table(s1, t1, *i.then_branch);
            lemma_stmt_table(s1, d1, *i.then_branch);
            lemma_keep_table(s1, t);
            if let Ok(s2) = r_stmt(with_table(s1, Map::empty()), *i.then_branch) {
                let d2 = s2.table;
                match i.else_branch {
                    Some(e) => {
                        lemma_stmt_table(s2, t1.union_prefer_right(d2), *e);
                        lemma_stmt_table(s2, d1.union_prefer_right(d2), *e);
                        lemma_chain(t, d1.union_prefer_right(d2), r_stmt(with_table(s2, Map::empty()), *e));
                        assert(t1.union_prefer_right(d2) =~= t.union_prefer_right(d1.union_prefer_right(d2)));
                    },
                    None => {
                        assert(t1.union_prefer_right(d2) =~= t.union_prefer_right(d1.union_prefer_right(d2)));
                    },
                }
                lemma_chain(t, d1, r_stmt(with_table(s1, Map::empty()), *i.then_branch));
            }
        }
}

proof fn lemma_while_table(st: ResolveState, t: Map<usize, usize>, w: crate::stmt::While)
    ensures
        r_stmt(with_table(st, t), Stmt::While(w)) == lifted(
            r_stmt(with_table(st, Map::empty()), Stmt::While(w)),
            t,
        ),
    decreases w,
{
    let s = Stmt::While(w);
    let st_e = with_table(st, Map::empty());
    let st_t = with_table(st, t);
    lemma_keep_table(st, t);
        lemma_expr_table(st, t, *w.condition);
        if let Ok(s1) = r_expr(st_e, *w.condition) {
            lemma_stmt_table(s1, t.union_prefer_right(s1.table), *w.body);
            lemma_stmt_table(s1, s1.table, *w.body);
            lemma_keep_table(s1, t);
            lemma_then(
                t,
                r_expr(st_t, *w.condition),
                r_expr(st_e, *w.condition),
                r_stmt(with_table(s1, t.union_prefer_right(s1.table)), *w.body),
                r_stmt(s1, *w.body),
                r_stmt(with_table(s1, Map::empty()), *w.body),
            );
        }
}

proof fn lemma_class_table(st: ResolveState, t: Map<usize, usize>, c: crate::stmt::Class)
    ensures
        r_stmt(with_table(st, t), Stmt::Class(c)) == lifted(
            r_stmt(with_table(st, Map::empty()), Stmt::Class(c)),
            t,
        ),
    decreases c,
{
    let s = Stmt::Class(c);
    let st_e = with_table(st, Map::empty());
    let st_t = with_table(st, t);
    lemma_keep_table(st, t);
        let st0 = ResolveState { class: ClassType::CLASS, ..st };
        lemma_frame_ops(st, t, c.name, FunctionType::NONE, ClassType::CLASS);
        lemma_declare_lifted(st0, t, c.name);
        if let Ok(s1) = declare(with_table(st0, Map::empty()), c.name) {
            lemma_frame_ops(s1, t, c.name, FunctionType::NONE, ClassType::NONE);
            let s2 = push_scope(define(s1, c.name));
            lemma_frame_ops(define(s1, c.name), t, c.name, FunctionType::NONE, ClassType::NONE);
            let s3 = ResolveState {
                scopes: s2.scopes.update(s2.scopes.len() - 1, seq![(this_name(), true)]),
                ..s2
            };
            assert(s3 == with_table(s3, Map::empty()));
            lemma_methods_table(s3, t, c.methods@);
            if let Ok(s4) = r_methods(s3, c.methods@) {
                lemma_frame_ops(s4, t.union_prefer_right(s4.table), c.name, FunctionType::NONE, st.class);
                lemma_frame_ops(pop_scope(s4), t.union_prefer_right(s4.table), c.name, FunctionType::NONE, st.class);
                lemma_keep_table(s4, t);
            }
        }
}

/// Determinism of resolution: what a program's resolution decides (its
/// fault, or the scopes it ends in and the distances it records) does not
/// depend on the table it starts from; the distances are laid over that
/// table. So resolving a program again, over the table that resolving it
/// filled, leaves the table as it was.
pub proof fn lemma_resolution_deterministic(program: Seq<Stmt>, t1: Map<usize, usize>, t2: Map<usize, usize>)
    ensures
        r_stmts(fresh_state(t1), program) == lifted(r_stmts(fresh_state(Map::empty()), program), t1),
        r_stmts(fresh_state(t1), program) is Ok <==> r_stmts(fresh_state(t2), program) is Ok,
        r_stmts(fresh_state(t1), program) matches Ok(s) ==> r_stmts(fresh_state(s.table), program)
            == Ok::<ResolveState, Fault>(s),
{
    let st = fresh_state(Map::empty());
    assert(fresh_state(t1) == with_table(st, t1));
    assert(fresh_state(t2) == with_table(st, t2));
    lemma_stmts_table(st, t1, program);
    lemma_stmts_table(st, t2, program);
    if let Ok(s) = r_stmts(fresh_state(t1), program) {
        assert(fresh_state(s.table) == with_table(st, s.table));
        lemma_stmts_table(st, s.table, program);
        if let Ok(se) = r_stmts(st, program) {
            assert(s.table.union_prefer_right(se.table) =~= s.table);
        }
    }
}

} // verus!
