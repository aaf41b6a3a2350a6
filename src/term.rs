//! Closed arithmetic terms: what a line reduces to once every variable has
//! been replaced by the term bound to it.
use vstd::prelude::*;

use crate::syntax::BinaryOp;

verus! {

/// An arithmetic term without variables. Its numeric value is fixed by the
/// literals and operators alone.
#[derive(Debug, PartialEq, Eq)]
pub enum Term {
    /// A numeric literal, as written in the source.
    Literal(String),
    /// The negation of a term.
    Neg(Box<Term>),
    /// `lhs op rhs`
    Binary { lhs: Box<Term>, op: BinaryOp, rhs: Box<Term> },
}

impl Term {
    /// A copy of this term, equal to it.
    pub fn duplicate(&self) -> (r: Term)
        ensures
            r == *self,
        decreases self,
    {
        match self {
            Term::Literal(text) => Term::Literal(text.clone()),
            Term::Neg(t) => Term::Neg(Box::new(t.duplicate())),
            Term::Binary { lhs, op, rhs } => Term::Binary {
                lhs: Box::new(lhs.duplicate()),
                op: *op,
                rhs: Box::new(rhs.duplicate()),
            },
        }
    }
}

} // verus!
