//! Tan: the parser, the passes and the foreign-function library of a small Lisp.

use vstd::prelude::*;

pub mod args;
pub mod bindings;
pub mod context;
pub mod error;
pub mod expr;
pub mod foreign;
pub mod lexer;
pub mod library;
pub mod module;
pub mod ops;
pub mod optimize;
pub mod parser;
pub mod prune;
pub mod range;
pub mod resolver;
pub mod scope;
pub mod span;
pub mod stdlib;
pub mod util;

verus! {
} // verus!
