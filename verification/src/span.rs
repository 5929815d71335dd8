//! Spans: ranges of character indices in the source code.

use vstd::prelude::*;

verus! {

/// Represents a span in the source code.
pub type Span = core::ops::Range<usize>;

/// A value together with the span of the source it came from.
pub struct Spanned<T>(pub T, pub Span);

impl<T> Spanned<T> {
    /// The span of the value.
    pub fn span(&self) -> (r: Span)
        ensures
            r.start == self.1.start,
            r.end == self.1.end,
    {
        core::ops::Range { start: self.1.start, end: self.1.end }
    }

    /// The value itself.
    pub fn as_ref(&self) -> (r: &T)
        ensures
            *r == self.0,
    {
        &self.0
    }
}

} // verus!
