//! Reading a literal out of an expression, and copying trees.

use vstd::prelude::*;
use super::structure::{exprs_view, stmts_view, BinearyExpr, Expr, ExprView, FunctionCall, Literal, LiteralView, Stmt};

verus! {

/// Appending an expression appends its value.
pub proof fn lemma_exprs_view_push(s: Seq<Expr>, e: Expr)
    ensures
        exprs_view(s.push(e)) == exprs_view(s).push(e@),
{
    assert(s.push(e).drop_last() =~= s);
}

/// Appending a statement appends its value.
pub proof fn lemma_stmts_view_push(s: Seq<Stmt>, t: Stmt)
    ensures
        stmts_view(s.push(t)) == stmts_view(s).push(t@),
{
    assert(s.push(t).drop_last() =~= s);
}

impl Clone for Literal {
    fn clone(&self) -> (r: Self)
        ensures
            r@ == self@,
    {
        match self {
            Literal::Integer(i) => Literal::Integer(*i),
            Literal::Float(bits) => Literal::Float(*bits),
            Literal::Str(s) => Literal::Str(s.clone()),
        }
    }
}

impl Clone for Expr {
    fn clone(&self) -> (r: Self)
        ensures
            r@ == self@,
        decreases self,
    {
        match self {
            Expr::Literal(l) => Expr::Literal(l.clone()),
            Expr::Binary(b) => Expr::Binary(
                Box::new(
                    BinearyExpr {
                        left: b.left.clone(),
                        operator: b.operator.clone(),
                        right: b.right.clone(),
                    },
                ),
            ),
            Expr::Variable(name) => Expr::Variable(name.clone()),
            Expr::FunctionCall(c) => {
                let mut arguments: Vec<Expr> = Vec::new();
                let mut i: usize = 0;
                while i < c.arguments.len()
                    invariant
                        i <= c.arguments.len(),
                        exprs_view(arguments@) == exprs_view(c.arguments@.take(i as int)),
                        decreases_to!(self => c.arguments),
                    decreases c.arguments.len() - i,
                {
                    let a = c.arguments[i].clone();
                    proof {
                        lemma_exprs_view_push(arguments@, a);
                        lemma_exprs_view_push(c.arguments@.take(i as int), c.arguments@[i as int]);
                        assert(c.arguments@.take(i as int).push(c.arguments@[i as int])
                            =~= c.arguments@.take(i + 1));
                    }
                    arguments.push(a);
                    i += 1;
                }
                assert(c.arguments@.take(i as int) =~= c.arguments@);
                Expr::FunctionCall(Box::new(FunctionCall { name: c.name.clone(), arguments }))
            },
        }
    }
}

impl Clone for BinearyExpr {
    fn clone(&self) -> (r: Self)
        ensures
            r.left@ == self.left@,
            r.operator@ == self.operator@,
            r.right@ == self.right@,
    {
        BinearyExpr {
            left: self.left.clone(),
            operator: self.operator.clone(),
            right: self.right.clone(),
        }
    }
}

impl Clone for FunctionCall {
    fn clone(&self) -> (r: Self)
        ensures
            r.name@ == self.name@,
            exprs_view(r.arguments@) == exprs_view(self.arguments@),
    {
        let mut arguments: Vec<Expr> = Vec::new();
        let mut i: usize = 0;
        while i < self.arguments.len()
            invariant
                i <= self.arguments.len(),
                exprs_view(arguments@) == exprs_view(self.arguments@.take(i as int)),
            decreases self.arguments.len() - i,
        {
            let a = self.arguments[i].clone();
            proof {
                lemma_exprs_view_push(arguments@, a);
                lemma_exprs_view_push(self.arguments@.take(i as int), self.arguments@[i as int]);
                assert(self.arguments@.take(i as int).push(self.arguments@[i as int])
                    =~= self.arguments@.take(i + 1));
            }
            arguments.push(a);
            i += 1;
        }
        assert(self.arguments@.take(i as int) =~= self.arguments@);
        FunctionCall { name: self.name.clone(), arguments }
    }
}

impl Expr {
    /// The integer, where the expression is an integer literal.
    pub fn as_int(&self) -> (r: Option<i64>)
        ensures
            r == match self@ {
                ExprView::Literal(LiteralView::Integer(i)) => Some(i),
                _ => None,
            },
    {
        if let Expr::Literal(Literal::Integer(value)) = self {
            Some(*value)
        } else {
            None
        }
    }

    /// The text, where the expression is a string literal.
    pub fn as_str(&self) -> (r: Option<&str>)
        ensures
            match self@ {
                ExprView::Literal(LiteralView::Str(s)) => r matches Some(t) && t@ == s,
                _ => r is None,
            },
    {
        if let Expr::Literal(Literal::Str(value)) = self {
            Some(value.as_str())
        } else {
            None
        }
    }

    /// The IEEE 754 bit pattern of the number, where the expression is a
    /// floating-point literal.
    pub fn as_float(&self) -> (r: Option<u64>)
        ensures
            r == match self@ {
                ExprView::Literal(LiteralView::Float(bits)) => Some(bits),
                _ => None,
            },
    {
        if let Expr::Literal(Literal::Float(value)) = self {
            Some(*value)
        } else {
            None
        }
    }
}

} // verus!
