pub mod ast;
pub mod codegen;
pub mod cli;
pub mod diag;
pub mod pass1;
pub mod visitors;
pub mod maker;
pub mod macros;
pub mod fmt;
pub mod global;
pub mod ir;
pub mod text;

use vstd::prelude::*;

verus! {

/// A span locates a piece of source text: file id, byte offset, line and
/// column (all zero-based).
#[derive(Clone, Copy, PartialEq, Eq, Structural, Debug)]
pub struct Span {
    pub file: usize,
    pub start: usize,
    pub line: usize,
    pub column: usize,
}

} // verus!
