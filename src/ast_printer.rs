use vstd::prelude::*;
use crate::expr::{expr_size, lemma_exprs_size, Expr};
use crate::token::Literals;

verus! {

/// Prints expressions in a fully parenthesized prefix form, for debugging.
pub struct AstPrinter;

/// The text of a literal.
pub open spec fn literal_text(l: Literals) -> Seq<char> {
    match l {
        Literals::NUMBER(t) => t@,
        Literals::STRING(s) => s@,
        Literals::BOOL(b) => if b { "true"@ } else { "false"@ },
        Literals::NIL => "nil"@,
    }
}

/// The printed form of an expression.
pub open spec fn printed(e: Expr) -> Seq<char>
    decreases e,
{
    match e {
        Expr::Binary(b) => "("@ + b.operator.lexeme@ + " "@ + printed(*b.left) + " "@ + printed(*b.right) + ")"@,
        Expr::Grouping(g) => "(group "@ + printed(*g.expression) + ")"@,
        Expr::Literal(l) => literal_text(l.value),
        Expr::Unary(u) => "("@ + u.operator.lexeme@ + " "@ + printed(*u.right) + ")"@,
        Expr::Variable(v) => v.name.lexeme@,
        Expr::Assign(a) => "(= "@ + a.name.lexeme@ + " "@ + printed(*a.value) + ")"@,
        Expr::Logical(l) => "("@ + l.operator.lexeme@ + " "@ + printed(*l.left) + " "@ + printed(*l.right) + ")"@,
        Expr::Call(c) => "(call "@ + printed(*c.callee) + printed_args(c.arguments@) + ")"@,
        Expr::Get(g) => "(. "@ + printed(*g.object) + " "@ + g.name.lexeme@ + ")"@,
        Expr::SetProperty(s) => "(= "@ + printed(*s.object) + " "@ + s.name.lexeme@ + " "@ + printed(*s.value) + ")"@,
        Expr::This(t) => t.keyword.lexeme@,
    }
}

/// Each argument printed after a space.
pub open spec fn printed_args(args: Seq<Expr>) -> Seq<char>
    decreases args,
{
    if args.len() == 0 {
        Seq::empty()
    } else {
        printed_args(args.drop_last()) + " "@ + printed(args.last())
    }
}

fn push_str(s: &mut String, t: &str)
    ensures
        final(s)@ == old(s)@ + t@,
{
    s.append(t);
}

impl AstPrinter {
    pub fn print(&self, expr: &Expr) -> (r: String)
        ensures
            r@ == printed(*expr),
        decreases expr_size(*expr),
    {
        let mut out = String::new();
        match expr {
            Expr::Binary(b) => {
                push_str(&mut out, "(");
                push_str(&mut out, b.operator.lexeme.as_str());
                push_str(&mut out, " ");
                push_str(&mut out, self.print(&b.left).as_str());
                push_str(&mut out, " ");
                push_str(&mut out, self.print(&b.right).as_str());
                push_str(&mut out, ")");
            },
            Expr::Grouping(g) => {
                push_str(&mut out, "(group ");
                push_str(&mut out, self.print(&g.expression).as_str());
                push_str(&mut out, ")");
            },
            Expr::Literal(l) => {
                match &l.value {
                    Literals::NUMBER(t) => push_str(&mut out, t.as_str()),
                    Literals::STRING(s) => push_str(&mut out, s.as_str()),
                    Literals::BOOL(b) => push_str(&mut out, if *b { "true" } else { "false" }),
                    Literals::NIL => push_str(&mut out, "nil"),
                }
            },
            Expr::Unary(u) => {
                push_str(&mut out, "(");
                push_str(&mut out, u.operator.lexeme.as_str());
                push_str(&mut out, " ");
                push_str(&mut out, self.print(&u.right).as_str());
                push_str(&mut out, ")");
            },
            Expr::Variable(v) => push_str(&mut out, v.name.lexeme.as_str()),
            Expr::Assign(a) => {
                push_str(&mut out, "(= ");
                push_str(&mut out, a.name.lexeme.as_str());
                push_str(&mut out, " ");
                push_str(&mut out, self.print(&a.value).as_str());
                push_str(&mut out, ")");
            },
            Expr::Logical(l) => {
                push_str(&mut out, "(");
                push_str(&mut out, l.operator.lexeme.as_str());
                push_str(&mut out, " ");
                push_str(&mut out, self.print(&l.left).as_str());
                push_str(&mut out, " ");
                push_str(&mut out, self.print(&l.right).as_str());
                push_str(&mut out, ")");
            },
            Expr::Call(c) => {
                push_str(&mut out, "(call ");
                push_str(&mut out, self.print(&c.callee).as_str());
                let ghost start = out@;
                let mut i: usize = 0;
                while i < c.arguments.len()
                    invariant
                        *expr == Expr::Call(*c),
                        i <= c.arguments@.len(),
                        out@ == start + printed_args(c.arguments@.subrange(0, i as int)),
                    decreases c.arguments@.len() - i,
                {
                    proof {
                        lemma_exprs_size(c.arguments@, i as int);
                    }
                    push_str(&mut out, " ");
                    push_str(&mut out, self.print(&c.arguments[i]).as_str());
                    proof {
                        let next = c.arguments@.subrange(0, i + 1);
                        assert(next.drop_last() =~= c.arguments@.subrange(0, i as int));
                        assert(next.last() == c.arguments@[i as int]);
                    }
                    i = i + 1;
                }
                proof {
                    assert(c.arguments@.subrange(0, i as int) =~= c.arguments@);
                }
                push_str(&mut out, ")");
            },
            Expr::Get(g) => {
                push_str(&mut out, "(. ");
                push_str(&mut out, self.print(&g.object).as_str());
                push_str(&mut out, " ");
                push_str(&mut out, g.name.lexeme.as_str());
                push_str(&mut out, ")");
            },
            Expr::SetProperty(s) => {
                push_str(&mut out, "(= ");
                push_str(&mut out, self.print(&s.object).as_str());
                push_str(&mut out, " ");
                push_str(&mut out, s.name.lexeme.as_str());
                push_str(&mut out, " ");
                push_str(&mut out, self.print(&s.value).as_str());
                push_str(&mut out, ")");
            },
            Expr::This(t) => push_str(&mut out, t.keyword.lexeme.as_str()),
        }
        proof {
            assert(out@ =~= printed(*expr));
        }
        out
    }
}

} // verus!
