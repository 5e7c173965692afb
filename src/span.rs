use vstd::prelude::*;

verus! {

/// A half-open range `[start, end)` of character positions in the source.
#[derive(Clone, Copy, Debug, PartialEq, Eq, Hash, Structural)]
pub struct Span {
    pub start: usize,
    pub end: usize,
}

impl Span {
    pub fn new(start: usize, end: usize) -> (r: Span)
        ensures
            r.start == start,
            r.end == end,
    {
        Span { start, end }
    }

    /// The range from this one's start up to `end`.
    pub fn up_to(self, end: usize) -> (r: Span)
        ensures
            r.start == self.start,
            r.end == end,
    {
        Span { start: self.start, end }
    }
}

/// A node together with the range of source it was read from.
#[derive(Debug)]
pub struct Spanned<T> {
    pub node: T,
    pub span: Span,
}

} // verus!
