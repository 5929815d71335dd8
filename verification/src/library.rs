//! The foreign-function library: the functions that modules bind.

pub mod bool;
pub mod buffer;
pub mod char;
pub mod chrono;
pub mod cmark;
pub mod cmp;
pub mod dec;
pub mod eq;
pub mod error;
pub mod float;
pub mod html;
pub mod image;
pub mod integer;
pub mod io;
pub mod json;
pub mod lang;
pub mod math;
pub mod maybe;
pub mod network;
pub mod path;
pub mod prelude;
pub mod process;
pub mod range;
pub mod regex;
pub mod rng;
pub mod seq;
pub mod set;
pub mod u8;
pub mod uuid;
