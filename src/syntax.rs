//! The syntax tree that a parser hands to the evaluator: one variant per
//! node kind, each carrying exactly the children its kind requires.
use vstd::prelude::*;

verus! {

/// The operator of a unary expression.
#[derive(Clone, Copy, Debug, PartialEq, Eq, Structural)]
pub enum UnaryOp {
    /// `+e`: the value of `e` unchanged.
    Plus,
    /// `-e`: the negation of the value of `e`.
    Minus,
}

/// The operator of a binary expression.
#[derive(Clone, Copy, Debug, PartialEq, Eq, Structural)]
pub enum BinaryOp {
    /// `+`
    Add,
    /// `-`
    Sub,
    /// `*`
    Mul,
    /// `/`
    Div,
    /// `**`: the left operand raised to the power of the right one.
    Pow,
}

/// A node of the syntax tree of one input line.
#[allow(inconsistent_fields)]
#[derive(Debug, PartialEq, Eq)]
pub enum Node {
    /// The root: the whole line's expression.
    SourceFile(Box<Node>),
    /// A numeric literal, as written in the source.
    Number(String),
    /// A variable reference, by name.
    Identifier(String),
    /// `op expr`
    Unary { op: UnaryOp, expr: Box<Node> },
    /// `( expr )`
    Parentheses { expr: Box<Node> },
    /// `lhs op rhs`
    Binary { lhs: Box<Node>, op: BinaryOp, rhs: Box<Node> },
    /// `name = rhs`, where `name` is the source text of the left-hand side.
    Assignment { name: String, rhs: Box<Node> },
}

} // verus!
