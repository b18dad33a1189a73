use vstd::prelude::*;
use crate::expr::{expr_size, Expr};
use std::rc::Rc;
use crate::token::{duplicate_tokens, Token};

verus! {

/// A statement node of the syntax tree.
#[derive(Debug)]
pub enum Stmt {
    Expression(Expression),
    Print(Print),
    Var(Var),
    Block(Block),
    If(If),
    While(While),
    Function(Rc<Function>),
    Return(Return),
    Class(Class),
}

#[derive(Debug)]
pub struct Expression {
    pub expression: Box<Expr>,
}

#[derive(Debug)]
pub struct Print {
    pub expression: Box<Expr>,
}

/// A variable declaration; a declaration without an initializer carries
/// a `nil` literal.
#[derive(Debug)]
pub struct Var {
    pub name: Token,
    pub initializer: Box<Expr>,
}

#[derive(Debug)]
pub struct Block {
    pub statements: Vec<Stmt>,
}

#[derive(Debug)]
pub struct If {
    pub token: Token,
    pub condition: Box<Expr>,
    pub then_branch: Box<Stmt>,
    pub else_branch: Option<Box<Stmt>>,
}

#[derive(Debug)]
pub struct While {
    pub token: Token,
    pub condition: Box<Expr>,
    pub body: Box<Stmt>,
}

#[derive(Debug)]
pub struct Function {
    pub name: Token,
    pub params: Vec<Token>,
    pub body: Vec<Stmt>,
}

/// A return statement; a bare `return;` carries a `nil` literal.
#[derive(Debug)]
pub struct Return {
    pub keyword: Token,
    pub value: Box<Expr>,
}

#[derive(Debug)]
pub struct Class {
    pub name: Token,
    pub methods: Vec<Rc<Function>>,
}

impl Expression {
    pub fn new(expression: Expr) -> (r: Stmt)
        ensures
            r == Stmt::Expression(Expression { expression: Box::new(expression) }),
    {
        Stmt::Expression(Expression { expression: Box::new(expression) })
    }
}

impl Print {
    pub fn new(expression: Expr) -> (r: Stmt)
        ensures
            r == Stmt::Print(Print { expression: Box::new(expression) }),
    {
        Stmt::Print(Print { expression: Box::new(expression) })
    }
}

impl Var {
    pub fn new(name: Token, initializer: Expr) -> (r: Stmt)
        ensures
            r == Stmt::Var(Var { name, initializer: Box::new(initializer) }),
    {
        Stmt::Var(Var { name, initializer: Box::new(initializer) })
    }
}

impl Block {
    pub fn new(statements: Vec<Stmt>) -> (r: Stmt)
        ensures
            r == Stmt::Block(Block { statements }),
    {
        Stmt::Block(Block { statements })
    }
}

impl If {
    pub fn new(token: Token, condition: Expr, then_branch: Stmt, else_branch: Option<Stmt>) -> (r:
        Stmt)
        ensures
            r == Stmt::If(
                If {
                    token,
                    condition: Box::new(condition),
                    then_branch: Box::new(then_branch),
                    else_branch: match else_branch {
                        Some(s) => Some(Box::new(s)),
                        None => None,
                    },
                },
            ),
    {
        let else_branch = match else_branch {
            Some(s) => Some(Box::new(s)),
            None => None,
        };
        Stmt::If(
            If {
                token,
                condition: Box::new(condition),
                then_branch: Box::new(then_branch),
                else_branch,
            },
        )
    }
}

impl While {
    pub fn new(token: Token, condition: Expr, body: Stmt) -> (r: Stmt)
        ensures
            r == Stmt::While(While { token, condition: Box::new(condition), body: Box::new(body) }),
    {
        Stmt::While(While { token, condition: Box::new(condition), body: Box::new(body) })
    }
}

impl Function {
    pub fn new(name: Token, params: Vec<Token>, body: Vec<Stmt>) -> (r: Stmt)
        ensures
            r == Stmt::Function(Rc::new(Function { name, params, body })),
    {
        Stmt::Function(Rc::new(Function { name, params, body }))
    }
}

impl Return {
    pub fn new(keyword: Token, value: Expr) -> (r: Stmt)
        ensures
            r == Stmt::Return(Return { keyword, value: Box::new(value) }),
    {
        Stmt::Return(Return { keyword, value: Box::new(value) })
    }
}

impl Class {
    pub fn new(name: Token, methods: Vec<Rc<Function>>) -> (r: Stmt)
        ensures
            r == Stmt::Class(Class { name, methods }),
    {
        Stmt::Class(Class { name, methods })
    }
}

/// The number of nodes in a statement; execution recurses on it.
pub open spec fn stmt_size(s: Stmt) -> nat
    decreases s,
{
    match s {
        Stmt::Expression(e) => 1 + expr_size(*e.expression),
        Stmt::Print(p) => 1 + expr_size(*p.expression),
        Stmt::Var(v) => 1 + expr_size(*v.initializer),
        Stmt::Block(b) => 3 + stmts_size(b.statements@) + b.statements@.len(),
        Stmt::If(i) => 1 + expr_size(*i.condition) + stmt_size(*i.then_branch) + match i.else_branch {
            Some(e) => stmt_size(*e),
            None => 0,
        },
        Stmt::While(w) => 1 + expr_size(*w.condition) + stmt_size(*w.body),
        Stmt::Function(f) => 1 + function_size(*f),
        Stmt::Return(r) => 1 + expr_size(*r.value),
        Stmt::Class(c) => 1 + functions_size(c.methods@),
    }
}

/// The number of nodes in a function declaration.
pub open spec fn function_size(f: Function) -> nat
    decreases f,
{
    2 + stmts_size(f.body@)
}

/// The number of nodes in a sequence of function declarations.
pub open spec fn functions_size(s: Seq<Rc<Function>>) -> nat
    decreases s,
{
    if s.len() == 0 {
        0
    } else {
        functions_size(s.drop_last()) + function_size(*s.last())
    }
}

pub proof fn lemma_functions_size(s: Seq<Rc<Function>>, i: int)
    requires
        0 <= i < s.len(),
    ensures
        function_size(*s[i]) <= functions_size(s),
    decreases s.len(),
{
    if i < s.len() - 1 {
        lemma_functions_size(s.drop_last(), i);
    }
}

/// The number of nodes in a sequence of statements.
pub open spec fn stmts_size(s: Seq<Stmt>) -> nat
    decreases s,
{
    if s.len() == 0 {
        0
    } else {
        stmts_size(s.drop_last()) + stmt_size(s.last())
    }
}

pub proof fn lemma_stmts_size(s: Seq<Stmt>, i: int)
    requires
        0 <= i < s.len(),
    ensures
        stmt_size(s[i]) <= stmts_size(s),
    decreases s.len(),
{
    if i < s.len() - 1 {
        lemma_stmts_size(s.drop_last(), i);
    }
}

/// A copy of a sequence of shared method declarations.
pub(crate) fn duplicate_rcs(v: &Vec<Rc<Function>>) -> (r: Vec<Rc<Function>>)
{
    let mut r: Vec<Rc<Function>> = Vec::new();
    let mut i: usize = 0;
    while i < v.len()
        invariant
            i <= v@.len(),
        decreases v@.len() - i,
    {
        r.push(Rc::clone(&v[i]));
        i = i + 1;
    }
    r
}

/// A copy of a sequence of statements, element by element.
pub(crate) fn duplicate_stmts(v: &Vec<Stmt>) -> (r: Vec<Stmt>)
    decreases v,
{
    let mut r: Vec<Stmt> = Vec::new();
    let mut i: usize = 0;
    while i < v.len()
        invariant
            i <= v@.len(),
        decreases v@.len() - i,
    {
        proof {
            assert(decreases_to!(*v => v@));
            assert(decreases_to!(v@ => v@[i as int]));
        }
        r.push(v[i].duplicate());
        i = i + 1;
    }
    r
}

impl Function {
    /// A copy of this declaration, node by node.
    pub(crate) fn duplicate(&self) -> (r: Function)
        decreases self,
    {
        Function {
            name: self.name.duplicate(),
            params: duplicate_tokens(&self.params),
            body: duplicate_stmts(&self.body),
        }
    }
}

impl Stmt {
    /// A copy of this statement, node by node.
    pub(crate) fn duplicate(&self) -> (r: Stmt)
        decreases self,
    {
        match self {
            Stmt::Expression(s) => Stmt::Expression(
                Expression { expression: Box::new(s.expression.duplicate()) },
            ),
            Stmt::Print(s) => Stmt::Print(Print { expression: Box::new(s.expression.duplicate()) }),
            Stmt::Var(s) => Stmt::Var(
                Var { name: s.name.duplicate(), initializer: Box::new(s.initializer.duplicate()) },
            ),
            Stmt::Block(s) => Stmt::Block(Block { statements: duplicate_stmts(&s.statements) }),
            Stmt::If(s) => {
                let else_branch = match &s.else_branch {
                    Some(b) => Some(Box::new(b.duplicate())),
                    None => None,
                };
                Stmt::If(
                    If {
                        token: s.token.duplicate(),
                        condition: Box::new(s.condition.duplicate()),
                        then_branch: Box::new(s.then_branch.duplicate()),
                        else_branch,
                    },
                )
            },
            Stmt::While(s) => Stmt::While(
                While {
                    token: s.token.duplicate(),
                    condition: Box::new(s.condition.duplicate()),
                    body: Box::new(s.body.duplicate()),
                },
            ),
            Stmt::Function(f) => Stmt::Function(Rc::clone(f)),
            Stmt::Return(s) => Stmt::Return(
                Return { keyword: s.keyword.duplicate(), value: Box::new(s.value.duplicate()) },
            ),
            Stmt::Class(c) => Stmt::Class(
                Class { name: c.name.duplicate(), methods: duplicate_rcs(&c.methods) },
            ),
        }
    }

    /// Hands this node to the visitor method for its kind.
    pub fn accept<T, V: Visitor<T>>(&self, visitor: &mut V) -> T {
        match self {
            Stmt::Expression(e) => visitor.visit_expression_stmt(e),
            Stmt::Print(e) => visitor.visit_print_stmt(e),
            Stmt::Var(e) => visitor.visit_var_stmt(e),
            Stmt::Block(e) => visitor.visit_block_stmt(e),
            Stmt::If(e) => visitor.visit_if_stmt(e),
            Stmt::While(e) => visitor.visit_while_stmt(e),
            Stmt::Function(e) => visitor.visit_function_stmt(e),
            Stmt::Return(e) => visitor.visit_return_stmt(e),
            Stmt::Class(e) => visitor.visit_class_stmt(e),
        }
    }
}

/// One method per statement kind, for passes over the syntax tree.
pub trait Visitor<T> {
    fn visit_expression_stmt(&mut self, stmt: &Expression) -> T;

    fn visit_print_stmt(&mut self, stmt: &Print) -> T;

    fn visit_var_stmt(&mut self, stmt: &Var) -> T;

    fn visit_block_stmt(&mut self, stmt: &Block) -> T;

    fn visit_if_stmt(&mut self, stmt: &If) -> T;

    fn visit_while_stmt(&mut self, stmt: &While) -> T;

    fn visit_function_stmt(&mut self, stmt: &Function) -> T;

    fn visit_return_stmt(&mut self, stmt: &Return) -> T;

    fn visit_class_stmt(&mut self, stmt: &Class) -> T;
}

} // verus!
