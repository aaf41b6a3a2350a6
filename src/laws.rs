//! Facts about evaluation that relate several evaluations of a tree.
use vstd::prelude::*;

use crate::eval::{reduce, EvalError};
use crate::literal::is_float_literal;
use crate::syntax::{BinaryOp, Node, UnaryOp};
use crate::term::Term;

verus! {

/// Whether `n` holds an assignment anywhere.
pub open spec fn has_assignment(n: Node) -> bool
    decreases n,
{
    match n {
        Node::SourceFile(e) => has_assignment(*e),
        Node::Number(_) => false,
        Node::Identifier(_) => false,
        Node::Unary { expr, .. } => has_assignment(*expr),
        Node::Parentheses { expr } => has_assignment(*expr),
        Node::Binary { lhs, rhs, .. } => has_assignment(*lhs) || has_assignment(*rhs),
        Node::Assignment { .. } => true,
    }
}

/// Whether `n` is built of well-formed numeric literals and operators alone:
/// no variable is read and none is assigned.
pub open spec fn is_constant(n: Node) -> bool
    decreases n,
{
    match n {
        Node::SourceFile(e) => is_constant(*e),
        Node::Number(text) => is_float_literal(text@),
        Node::Identifier(_) => false,
        Node::Unary { expr, .. } => is_constant(*expr),
        Node::Parentheses { expr } => is_constant(*expr),
        Node::Binary { lhs, rhs, .. } => is_constant(*lhs) && is_constant(*rhs),
        Node::Assignment { .. } => false,
    }
}

/// A tree without assignments leaves the environment as it found it.
pub proof fn lemma_no_assignment_keeps_env(n: Node, env: Map<Seq<char>, Term>)
    requires
        !has_assignment(n),
    ensures
        reduce(n, env).1 == env,
    decreases n,
{
    match n {
        Node::SourceFile(e) => lemma_no_assignment_keeps_env(*e, env),
        Node::Unary { expr, .. } => lemma_no_assignment_keeps_env(*expr, env),
        Node::Parentheses { expr } => lemma_no_assignment_keeps_env(*expr, env),
        Node::Binary { lhs, rhs, .. } => {
            lemma_no_assignment_keeps_env(*lhs, env);
            lemma_no_assignment_keeps_env(*rhs, env);
        },
        _ => {},
    }
}

/// Evaluating the same tree a second time, in the environment the first
/// evaluation left, gives the same result and the same environment when the
/// tree assigns nothing: evaluation is a function of the tree and the
/// environment.
pub proof fn lemma_reevaluation_agrees(n: Node, env: Map<Seq<char>, Term>)
    requires
        !has_assignment(n),
    ensures
        reduce(n, reduce(n, env).1) == reduce(n, env),
{
    lemma_no_assignment_keeps_env(n, env);
}

/// A constant tree always evaluates, to a term that does not depend on the
/// environment, and changes nothing in it.
pub proof fn lemma_constant_evaluates(n: Node, env: Map<Seq<char>, Term>)
    requires
        is_constant(n),
    ensures
        reduce(n, env).0 is Ok,
        reduce(n, env).0 == reduce(n, Map::empty()).0,
        reduce(n, env).1 == env,
    decreases n,
{
    match n {
        Node::SourceFile(e) => lemma_constant_evaluates(*e, env),
        Node::Unary { expr, .. } => lemma_constant_evaluates(*expr, env),
        Node::Parentheses { expr } => lemma_constant_evaluates(*expr, env),
        Node::Binary { lhs, rhs, .. } => {
            lemma_constant_evaluates(*lhs, env);
            lemma_constant_evaluates(*rhs, env);
            lemma_constant_evaluates(*lhs, Map::empty());
            lemma_constant_evaluates(*rhs, Map::empty());
        },
        _ => {},
    }
}

/// Unary `-` evaluates to the negation of its operand's term, and unary `+`
/// to the operand's term itself; errors and assignments of the operand pass
/// through unchanged.
pub proof fn lemma_unary_operators(expr: Node, env: Map<Seq<char>, Term>)
    ensures
        reduce(Node::Unary { op: UnaryOp::Plus, expr: Box::new(expr) }, env) == reduce(expr, env),
        reduce(Node::Unary { op: UnaryOp::Minus, expr: Box::new(expr) }, env) == (match reduce(
            expr,
            env,
        ).0 {
            Ok(t) => Ok::<Term, EvalError>(Term::Neg(Box::new(t))),
            Err(e) => Err(e),
        }, reduce(expr, env).1),
{
}

/// Parentheses only group: their value is the value of what they enclose.
pub proof fn lemma_parentheses_group(expr: Node, env: Map<Seq<char>, Term>)
    ensures
        reduce(Node::Parentheses { expr: Box::new(expr) }, env) == reduce(expr, env),
{
}

/// A binary expression whose operands evaluate, left first, evaluates to the
/// operator applied to their terms.
pub proof fn lemma_binary_combines(
    lhs: Node,
    op: BinaryOp,
    rhs: Node,
    env: Map<Seq<char>, Term>,
)
    requires
        reduce(lhs, env).0 is Ok,
        reduce(rhs, reduce(lhs, env).1).0 is Ok,
    ensures
        reduce(Node::Binary { lhs: Box::new(lhs), op, rhs: Box::new(rhs) }, env) == (Ok::<Term, EvalError>(
            Term::Binary {
                lhs: Box::new(reduce(lhs, env).0->Ok_0),
                op,
                rhs: Box::new(reduce(rhs, reduce(lhs, env).1).0->Ok_0),
            },
        ), reduce(rhs, reduce(lhs, env).1).1),
{
}

/// Assigning a constant twice gives the same value both times, and after
/// either the name is bound to that value: the second assignment changes
/// nothing.
pub proof fn lemma_constant_assignment_repeats(name: String, rhs: Node, env: Map<Seq<char>, Term>)
    requires
        is_constant(rhs),
    ensures
        ({
            let a = Node::Assignment { name, rhs: Box::new(rhs) };
            let (r1, env1) = reduce(a, env);
            let (r2, env2) = reduce(a, env1);
            &&& r1 is Ok
            &&& r1 == r2
            &&& r1 == reduce(rhs, env).0
            &&& env1 == env.insert(name@, r1->Ok_0)
            &&& env2 == env1
        }),
{
    lemma_constant_evaluates(rhs, env);
    let env1 = reduce(rhs, env).1.insert(name@, reduce(rhs, env).0->Ok_0);
    lemma_constant_evaluates(rhs, env1);
    lemma_constant_evaluates(rhs, Map::empty());
    assert(env1.insert(name@, reduce(rhs, env).0->Ok_0) =~= env1);
}

/// Reading a name that nothing has bound fails with an undefined-variable
/// error naming it.
pub proof fn lemma_read_unbound_fails(name: String, env: Map<Seq<char>, Term>)
    requires
        !env.contains_key(name@),
    ensures
        reduce(Node::Identifier(name), env) == (Err::<Term, EvalError>(
            EvalError::UndefinedVariable(name),
        ), env),
{
}

/// After an assignment to a name succeeds, reading that name returns the
/// value just assigned.
pub proof fn lemma_read_after_assignment(name: String, rhs: Node, env: Map<Seq<char>, Term>)
    requires
        reduce(Node::Assignment { name, rhs: Box::new(rhs) }, env).0 is Ok,
    ensures
        ({
            let (r, env1) = reduce(Node::Assignment { name, rhs: Box::new(rhs) }, env);
            reduce(Node::Identifier(name), env1) == (r, env1)
        }),
{
}

} // verus!
