//! The evaluator: reduces a syntax tree, against an environment, to a closed
//! term, performing the assignments it meets on the way.
use vstd::prelude::*;

use crate::env::Environment;
use crate::literal::{is_float_literal, is_number_literal};
use crate::syntax::{Node, UnaryOp};
use crate::term::Term;

verus! {

/// Why a tree could not be reduced.
#[derive(Debug, PartialEq, Eq)]
pub enum EvalError {
    /// A number node whose text is not a numeric literal.
    ParseNumber(String),
    /// An identifier names a variable that no assignment has bound.
    UndefinedVariable(String),
}

/// The outcome of reducing `n` in environment `env`: the term of `n`, or the
/// first error met, with the environment as the assignments made so far left it.
/// Children are reduced left before right, and an assignment takes effect as
/// soon as its right-hand side has been reduced.
pub open spec fn reduce(n: Node, env: Map<Seq<char>, Term>) -> (Result<Term, EvalError>, Map<
    Seq<char>,
    Term,
>)
    decreases n,
{
    match n {
        Node::SourceFile(e) => reduce(*e, env),
        Node::Number(text) => if is_float_literal(text@) {
            (Ok(Term::Literal(text)), env)
        } else {
            (Err(EvalError::ParseNumber(text)), env)
        },
        Node::Identifier(name) => if env.contains_key(name@) {
            (Ok(env[name@]), env)
        } else {
            (Err(EvalError::UndefinedVariable(name)), env)
        },
        Node::Unary { op, expr } => {
            let (r, env1) = reduce(*expr, env);
            match r {
                Ok(t) => (Ok(apply_unary(op, t)), env1),
                Err(e) => (Err(e), env1),
            }
        },
        Node::Parentheses { expr } => reduce(*expr, env),
        Node::Binary { lhs, op, rhs } => {
            let (l, env1) = reduce(*lhs, env);
            match l {
                Err(e) => (Err(e), env1),
                Ok(lt) => {
                    let (r, env2) = reduce(*rhs, env1);
                    match r {
                        Err(e) => (Err(e), env2),
                        Ok(rt) => (Ok(Term::Binary { lhs: Box::new(lt), op, rhs: Box::new(rt) }), env2),
                    }
                },
            }
        },
        Node::Assignment { name, rhs } => {
            let (r, env1) = reduce(*rhs, env);
            match r {
                Ok(t) => (Ok(t), env1.insert(name@, t)),
                Err(e) => (Err(e), env1),
            }
        },
    }
}

/// The term of `op t`: `+` leaves `t` as it is, `-` negates it.
pub open spec fn apply_unary(op: UnaryOp, t: Term) -> Term {
    match op {
        UnaryOp::Plus => t,
        UnaryOp::Minus => Term::Neg(Box::new(t)),
    }
}

/// Reduces `node` to a closed term, reading variables from `env` and binding
/// in it the name of each assignment met. Fails on the first number that is
/// not a numeric literal and on the first read of an unbound name; the
/// assignments made before the failure stay in effect.
pub fn evaluate(node: &Node, env: &mut Environment) -> (r: Result<Term, EvalError>)
    requires
        old(env).wf(),
    ensures
        final(env).wf(),
        (r, final(env)@) == reduce(*node, old(env)@),
    decreases node,
{
    match node {
        Node::SourceFile(e) => evaluate(e, env),
        Node::Number(text) => if is_number_literal(text.as_str()) {
            Ok(Term::Literal(text.clone()))
        } else {
            Err(EvalError::ParseNumber(text.clone()))
        },
        Node::Identifier(name) => match env.lookup(name) {
            Some(t) => Ok(t),
            None => Err(EvalError::UndefinedVariable(name.clone())),
        },
        Node::Unary { op, expr } => {
            let t = evaluate(expr, env)?;
            match op {
                UnaryOp::Plus => Ok(t),
                UnaryOp::Minus => Ok(Term::Neg(Box::new(t))),
            }
        },
        Node::Parentheses { expr } => evaluate(expr, env),
        Node::Binary { lhs, op, rhs } => {
            let l = evaluate(lhs, env)?;
            let r = evaluate(rhs, env)?;
            Ok(Term::Binary { lhs: Box::new(l), op: *op, rhs: Box::new(r) })
        },
        Node::Assignment { name, rhs } => {
            let t = evaluate(rhs, env)?;
            env.bind(name.clone(), t.duplicate());
            Ok(t)
        },
    }
}

} // verus!
