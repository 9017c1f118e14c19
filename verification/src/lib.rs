//! A small interpreter for an eight-instruction tape language.
//!
//! A program is a string of single-character instructions. [`token`] decodes
//! it, [`machine`] says in mathematical terms what each instruction does, and
//! [`engine`] holds the interpreter itself, whose every operation is proved
//! to follow that description.

pub mod engine;
pub mod machine;
pub mod token;

pub use engine::{BrainFuck, Status};
pub use machine::State;
pub use token::{tokenize, BfError, Token};
