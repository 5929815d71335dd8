//! The primitive operators.

pub mod arithmetic;
pub mod eq;
pub mod io;
pub mod lang;
pub mod num;
pub mod string;
