use vstd::prelude::*;
use crate::token::{Literals, Token};

verus! {

/// An expression node of the syntax tree.
#[derive(Debug)]
pub enum Expr {
    Binary(Binary),
    Grouping(Grouping),
    Literal(Literal),
    Unary(Unary),
    Variable(Variable),
    Assign(Assign),
    Logical(Logical),
    Call(Call),
    Get(Get),
    SetProperty(SetProperty),
    This(This),
}

#[derive(Debug)]
pub struct Binary {
    pub left: Box<Expr>,
    pub operator: Token,
    pub right: Box<Expr>,
}

#[derive(Debug)]
pub struct Grouping {
    pub expression: Box<Expr>,
}

#[derive(Debug)]
pub struct Literal {
    pub value: Literals,
}

#[derive(Debug)]
pub struct Unary {
    pub operator: Token,
    pub right: Box<Expr>,
}

#[derive(Debug)]
pub struct Variable {
    pub name: Token,
}

#[derive(Debug)]
pub struct Assign {
    pub name: Token,
    pub value: Box<Expr>,
}

#[derive(Debug)]
pub struct Logical {
    pub left: Box<Expr>,
    pub operator: Token,
    pub right: Box<Expr>,
}

#[derive(Debug)]
pub struct Call {
    pub callee: Box<Expr>,
    pub paren: Token,
    pub arguments: Vec<Expr>,
}

/// Reading a property: `object.name`.
#[derive(Debug)]
pub struct Get {
    pub object: Box<Expr>,
    pub name: Token,
}

/// Writing a property: `object.name = value`.
#[derive(Debug)]
pub struct SetProperty {
    pub object: Box<Expr>,
    pub name: Token,
    pub value: Box<Expr>,
}

#[derive(Debug)]
pub struct This {
    pub keyword: Token,
}

impl Binary {
    pub fn new(left: Expr, operator: Token, right: Expr) -> (r: Expr)
        ensures
            r == Expr::Binary(Binary { left: Box::new(left), operator, right: Box::new(right) }),
    {
        Expr::Binary(Binary { left: Box::new(left), operator, right: Box::new(right) })
    }
}

impl Grouping {
    pub fn new(expression: Expr) -> (r: Expr)
        ensures
            r == Expr::Grouping(Grouping { expression: Box::new(expression) }),
    {
        Expr::Grouping(Grouping { expression: Box::new(expression) })
    }
}

impl Literal {
    pub fn new(value: Literals) -> (r: Expr)
        ensures
            r == Expr::Literal(Literal { value }),
    {
        Expr::Literal(Literal { value })
    }
}

impl Unary {
    pub fn new(operator: Token, right: Expr) -> (r: Expr)
        ensures
            r == Expr::Unary(Unary { operator, right: Box::new(right) }),
    {
        Expr::Unary(Unary { operator, right: Box::new(right) })
    }
}

impl Variable {
    pub fn new(name: Token) -> (r: Expr)
        ensures
            r == Expr::Variable(Variable { name }),
    {
        Expr::Variable(Variable { name })
    }
}

impl Assign {
    pub fn new(name: Token, value: Expr) -> (r: Expr)
        ensures
            r == Expr::Assign(Assign { name, value: Box::new(value) }),
    {
        Expr::Assign(Assign { name, value: Box::new(value) })
    }
}

impl Logical {
    pub fn new(left: Expr, operator: Token, right: Expr) -> (r: Expr)
        ensures
            r == Expr::Logical(Logical { left: Box::new(left), operator, right: Box::new(right) }),
    {
        Expr::Logical(Logical { left: Box::new(left), operator, right: Box::new(right) })
    }
}

impl Call {
    pub fn new(callee: Expr, paren: Token, arguments: Vec<Expr>) -> (r: Expr)
        ensures
            r == Expr::Call(Call { callee: Box::new(callee), paren, arguments }),
    {
        Expr::Call(Call { callee: Box::new(callee), paren, arguments })
    }
}

impl Get {
    pub fn new(object: Expr, name: Token) -> (r: Expr)
        ensures
            r == Expr::Get(Get { object: Box::new(object), name }),
    {
        Expr::Get(Get { object: Box::new(object), name })
    }
}

impl SetProperty {
    pub fn new(object: Expr, name: Token, value: Expr) -> (r: Expr)
        ensures
            r == Expr::SetProperty(
                SetProperty { object: Box::new(object), name, value: Box::new(value) },
            ),
    {
        Expr::SetProperty(SetProperty { object: Box::new(object), name, value: Box::new(value) })
    }
}

impl This {
    pub fn new(keyword: Token) -> (r: Expr)
        ensures
            r == Expr::This(This { keyword }),
    {
        Expr::This(This { keyword })
    }
}

/// The number of nodes in an expression; evaluation recurses on it.
pub open spec fn expr_size(e: Expr) -> nat
    decreases e,
{
    match e {
        Expr::Binary(b) => 1 + expr_size(*b.left) + expr_size(*b.right),
        Expr::Grouping(g) => 1 + expr_size(*g.expression),
        Expr::Literal(_) => 1,
        Expr::Unary(u) => 1 + expr_size(*u.right),
        Expr::Variable(_) => 1,
        Expr::Assign(a) => 1 + expr_size(*a.value),
        Expr::Logical(l) => 1 + expr_size(*l.left) + expr_size(*l.right),
        Expr::Call(c) => 1 + expr_size(*c.callee) + exprs_size(c.arguments@) + c.arguments@.len(),
        Expr::Get(g) => 1 + expr_size(*g.object),
        Expr::SetProperty(s) => 1 + expr_size(*s.object) + expr_size(*s.value),
        Expr::This(_) => 1,
    }
}

/// The number of nodes in a sequence of expressions.
pub open spec fn exprs_size(s: Seq<Expr>) -> nat
    decreases s,
{
    if s.len() == 0 {
        0
    } else {
        exprs_size(s.drop_last()) + expr_size(s.last())
    }
}

pub proof fn lemma_exprs_size(s: Seq<Expr>, i: int)
    requires
        0 <= i < s.len(),
    ensures
        expr_size(s[i]) <= exprs_size(s),
    decreases s.len(),
{
    if i < s.len() - 1 {
        lemma_exprs_size(s.drop_last(), i);
    }
}

/// A copy of a sequence of expressions, element by element.
pub(crate) fn duplicate_exprs(v: &Vec<Expr>) -> (r: Vec<Expr>)
    decreases v,
{
    let mut r: Vec<Expr> = Vec::new();
    let mut i: usize = 0;
    while i < v.len()
        invariant
            i <= v@.len(),
        decreases v@.len() - i,
    {
        proof {
            assert(decreases_to!(*v => v@));
            assert(decreases_to!(v@ => v@[i as int]));
        }
        r.push(v[i].duplicate());
        i = i + 1;
    }
    r
}

impl Expr {
    /// A copy of this expression, node by node.
    pub(crate) fn duplicate(&self) -> (r: Expr)
        decreases self,
    {
        match self {
            Expr::Binary(e) => Expr::Binary(
                Binary {
                    left: Box::new(e.left.duplicate()),
                    operator: e.operator.duplicate(),
                    right: Box::new(e.right.duplicate()),
                },
            ),
            Expr::Grouping(e) => Expr::Grouping(
                Grouping { expression: Box::new(e.expression.duplicate()) },
            ),
            Expr::Literal(e) => Expr::Literal(Literal { value: e.value.duplicate() }),
            Expr::Unary(e) => Expr::Unary(
                Unary { operator: e.operator.duplicate(), right: Box::new(e.right.duplicate()) },
            ),
            Expr::Variable(e) => Expr::Variable(Variable { name: e.name.duplicate() }),
            Expr::Assign(e) => Expr::Assign(
                Assign { name: e.name.duplicate(), value: Box::new(e.value.duplicate()) },
            ),
            Expr::Logical(e) => Expr::Logical(
                Logical {
                    left: Box::new(e.left.duplicate()),
                    operator: e.operator.duplicate(),
                    right: Box::new(e.right.duplicate()),
                },
            ),
            Expr::Call(e) => Expr::Call(
                Call {
                    callee: Box::new(e.callee.duplicate()),
                    paren: e.paren.duplicate(),
                    arguments: duplicate_exprs(&e.arguments),
                },
            ),
            Expr::Get(e) => Expr::Get(
                Get { object: Box::new(e.object.duplicate()), name: e.name.duplicate() },
            ),
            Expr::SetProperty(e) => Expr::SetProperty(
                SetProperty {
                    object: Box::new(e.object.duplicate()),
                    name: e.name.duplicate(),
                    value: Box::new(e.value.duplicate()),
                },
            ),
            Expr::This(e) => Expr::This(This { keyword: e.keyword.duplicate() }),
        }
    }

    /// Hands this node to the visitor method for its kind.
    pub fn accept<T, V: Visitor<T>>(&self, visitor: &mut V) -> T {
        match self {
            Expr::Binary(e) => visitor.visit_binary_expr(e),
            Expr::Grouping(e) => visitor.visit_grouping_expr(e),
            Expr::Literal(e) => visitor.visit_literal_expr(e),
            Expr::Unary(e) => visitor.visit_unary_expr(e),
            Expr::Variable(e) => visitor.visit_variable_expr(e),
            Expr::Assign(e) => visitor.visit_assign_expr(e),
            Expr::Logical(e) => visitor.visit_logical_expr(e),
            Expr::Call(e) => visitor.visit_call_expr(e),
            Expr::Get(e) => visitor.visit_get_expr(e),
            Expr::SetProperty(e) => visitor.visit_set_expr(e),
            Expr::This(e) => visitor.visit_this_expr(e),
        }
    }
}

/// One method per expression kind, for passes over the syntax tree.
pub trait Visitor<T> {
    fn visit_binary_expr(&mut self, expr: &Binary) -> T;

    fn visit_grouping_expr(&mut self, expr: &Grouping) -> T;

    fn visit_literal_expr(&self, expr: &Literal) -> T;

    fn visit_unary_expr(&mut self, expr: &Unary) -> T;

    fn visit_variable_expr(&mut self, expr: &Variable) -> T;

    fn visit_assign_expr(&mut self, expr: &Assign) -> T;

    fn visit_logical_expr(&mut self, expr: &Logical) -> T;

    fn visit_call_expr(&mut self, expr: &Call) -> T;

    fn visit_get_expr(&mut self, expr: &Get) -> T;

    fn visit_set_expr(&mut self, expr: &SetProperty) -> T;

    fn visit_this_expr(&mut self, expr: &This) -> T;
}

} // verus!
