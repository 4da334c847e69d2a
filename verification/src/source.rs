//! Positions in source text.

use vstd::prelude::*;

verus! {

/// A stretch of source text, by byte offsets; `end` is the first offset behind it.
#[derive(Clone, Copy, Debug, PartialEq, Eq, Structural)]
pub struct Span {
    pub start: usize,
    pub end: usize,
}

/// A syntax node and the stretch of source text that it was read from.
#[derive(Debug)]
pub struct Spanned<T> {
    pub node: T,
    pub span: Span,
}

} // verus!
