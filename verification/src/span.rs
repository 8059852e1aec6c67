//! Source locations.

use vstd::prelude::*;

verus! {

/// A half-open range of positions in a source text.
#[derive(Copy, Debug, PartialEq, Eq, Structural)]
pub struct Span {
    pub start: usize,
    pub end: usize,
}

impl Clone for Span {
    fn clone(&self) -> (res: Self)
        ensures
            res == *self,
    {
        Span { start: self.start, end: self.end }
    }
}

impl Span {
    /// The span that built terms carry until a source location is given to them.
    pub open spec fn empty() -> Span {
        Span { start: 0, end: 0 }
    }

    /// The span from `start` to `end`.
    pub fn new(start: usize, end: usize) -> (res: Span)
        ensures
            res == (Span { start, end }),
    {
        Span { start, end }
    }
}

impl Default for Span {
    fn default() -> (res: Span)
        ensures
            res == Span::empty(),
    {
        Span { start: 0, end: 0 }
    }
}

} // verus!
