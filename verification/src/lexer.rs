//! The tokens that lexical analysis produces and the parser consumes.

pub mod token;
