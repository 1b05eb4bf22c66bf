//! The expression tree: a closed set of node shapes, each node owning its
//! subtrees, with a canonical fully-parenthesized textual rendering.

use vstd::prelude::*;
use vstd::string::StringExecFns;

use crate::token::{SpecToken, Token};

verus! {

/// An expression: a binary operation, a parenthesized sub-expression kept as
/// its own node so that structure survives rendering, a literal leaf carrying
/// its token, or a unary operation. Every child is owned by exactly one
/// parent.
#[derive(Debug, PartialEq)]
pub enum Expr {
    Binary(Box<Expr>, Token, Box<Expr>),
    Grouping(Box<Expr>),
    Literal(Token),
    Unary(Token, Box<Expr>),
}

/// Mathematical view of an expression tree.
pub enum SpecExpr {
    Binary(Box<SpecExpr>, SpecToken, Box<SpecExpr>),
    Grouping(Box<SpecExpr>),
    Literal(SpecToken),
    Unary(SpecToken, Box<SpecExpr>),
}

pub open spec fn expr_view(e: Expr) -> SpecExpr
    decreases e,
{
    match e {
        Expr::Binary(l, op, r) => SpecExpr::Binary(
            Box::new(expr_view(*l)),
            op@,
            Box::new(expr_view(*r)),
        ),
        Expr::Grouping(inner) => SpecExpr::Grouping(Box::new(expr_view(*inner))),
        Expr::Literal(t) => SpecExpr::Literal(t@),
        Expr::Unary(op, r) => SpecExpr::Unary(op@, Box::new(expr_view(*r))),
    }
}

impl View for Expr {
    type V = SpecExpr;

    open spec fn view(&self) -> SpecExpr {
        expr_view(*self)
    }
}

/// The canonical textual form of an expression: a binary node is
/// `(<operator-lexeme> <left> <right>)`, a grouping is `(group <inner>)`, a
/// unary node is `(<operator-lexeme> <operand>)`, and a literal is its
/// token's lexeme.
pub open spec fn spec_render(e: SpecExpr) -> Seq<char>
    decreases e,
{
    match e {
        SpecExpr::Binary(l, op, r) => seq!['('] + op.lexeme + seq![' '] + spec_render(*l) + seq![
            ' ',
        ] + spec_render(*r) + seq![')'],
        SpecExpr::Grouping(inner) => seq!['(', 'g', 'r', 'o', 'u', 'p', ' '] + spec_render(*inner)
            + seq![')'],
        SpecExpr::Literal(t) => t.lexeme,
        SpecExpr::Unary(op, r) => seq!['('] + op.lexeme + seq![' '] + spec_render(*r) + seq![')'],
    }
}

impl Expr {
    /// Render the expression in its canonical textual form.
    pub fn render(&self) -> (out: String)
        ensures
            out@ == spec_render(self@),
        decreases *self,
    {
        proof {
            reveal_strlit("(");
            reveal_strlit(")");
            reveal_strlit(" ");
            reveal_strlit("(group ");
        }
        match self {
            Expr::Binary(l, op, r) => {
                let mut out = String::from_str("(");
                out.append(op.lexeme.as_str());
                out.append(" ");
                let ls = l.render();
                out.append(ls.as_str());
                out.append(" ");
                let rs = r.render();
                out.append(rs.as_str());
                out.append(")");
                proof {
                    assert(out@ =~= spec_render(self@));
                }
                out
            },
            Expr::Grouping(inner) => {
                let mut out = String::from_str("(group ");
                let is = inner.render();
                out.append(is.as_str());
                out.append(")");
                proof {
                    assert(out@ =~= spec_render(self@));
                }
                out
            },
            Expr::Literal(t) => {
                let out = t.lexeme.clone();
                out
            },
            Expr::Unary(op, r) => {
                let mut out = String::from_str("(");
                out.append(op.lexeme.as_str());
                out.append(" ");
                let rs = r.render();
                out.append(rs.as_str());
                out.append(")");
                proof {
                    assert(out@ =~= spec_render(self@));
                }
                out
            },
        }
    }
}

} // verus!
