//! A minimal interpreter for a Lisp-family language.
//!
//! A character stream is tokenized ([`lexer`]), parsed into a recursive
//! expression tree ([`parser`]), and evaluated against a chained lexical
//! environment ([`env`], [`eval`]) that supports user-defined closures and a
//! small set of built-in procedures.
//!
//! Numbers are IEEE-754 binary64 values, carried everywhere as their bit
//! patterns (`u64`): the arithmetic itself is done by the `rustc_apfloat`
//! software implementation behind the trusted items in [`num`].

use vstd::prelude::*;

pub mod env;
pub mod error;
pub mod eval;
pub mod exp;
pub mod lexer;
pub mod num;
pub mod parser;

verus! {

} // verus!
