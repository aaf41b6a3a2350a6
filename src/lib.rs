//! Evaluation core of a line-oriented calculator.
//!
//! A parsed line arrives as a [`syntax::Node`] tree. Evaluation walks it
//! depth-first, left before right, reading and writing variables in an
//! [`env::Environment`], and reduces it to a closed arithmetic [`term::Term`]:
//! a term without variables whose numeric value is the value of the line.
//! Number literals are checked against the syntax of floating-point
//! literals as they are read; computing the term's floating-point value is
//! left to the caller.

pub mod env;
pub mod eval;
pub mod laws;
pub mod literal;
pub mod syntax;
pub mod term;
