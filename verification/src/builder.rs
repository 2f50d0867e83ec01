//! A fluent builder of expressions.

use vstd::prelude::*;
use crate::expr::Expr;
use crate::term::{app, capped, lambda, Term};

verus! {

/// An expression under construction.
pub struct ExprBuilder {
    expr: Expr,
}

impl View for ExprBuilder {
    type V = Term;

    /// The term built so far.
    closed spec fn view(&self) -> Term {
        self.expr@
    }
}

impl ExprBuilder {
    /// A builder that starts from the identity combinator.
    pub fn new() -> (builder: ExprBuilder)
        ensures
            builder@ == Term::I,
    {
        ExprBuilder { expr: Expr::I }
    }

    /// A builder that starts from the variable `name`.
    pub fn var(name: &str) -> (builder: ExprBuilder)
        ensures
            builder@ == Term::Var(name@),
    {
        ExprBuilder { expr: Expr::var(name) }
    }

    /// A builder that starts from the muse `name` with a resonance of
    /// `resonance` thousandths, one thousand at most.
    pub fn muse(name: &str, resonance: u32) -> (builder: ExprBuilder)
        ensures
            builder@ == Term::Muse(name@, capped(resonance as nat)),
    {
        ExprBuilder { expr: Expr::muse(name, resonance) }
    }

    /// Abstracts what has been built over `param`.
    pub fn lambda(self, param: &str) -> (builder: ExprBuilder)
        ensures
            builder@ == lambda(param@, self@),
    {
        ExprBuilder { expr: Expr::lambda(param, self.expr) }
    }

    /// Applies what has been built to `other`.
    pub fn app(self, other: Expr) -> (builder: ExprBuilder)
        ensures
            builder@ == app(self@, other@),
    {
        ExprBuilder { expr: Expr::app(self.expr, other) }
    }

    /// The expression that has been built.
    pub fn build(self) -> (r: Expr)
        ensures
            r@ == self@,
    {
        self.expr
    }
}

impl Default for ExprBuilder {
    /// The builder that [`ExprBuilder::new`] makes.
    fn default() -> (builder: ExprBuilder)
        ensures
            builder@ == Term::I,
    {
        ExprBuilder::new()
    }
}

} // verus!
