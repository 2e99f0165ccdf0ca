//! Half-open byte spans into a single source file.

use vstd::prelude::*;

verus! {

/// A half-open byte range `[start, end)` inside one source file.
/// Spans never cross file boundaries; the owning file is tracked separately.
#[derive(Clone, Copy, Debug, PartialEq, Eq, Structural)]
pub struct Span {
    pub start: usize,
    pub end: usize,
}

impl Span {
    /// A span is well formed when it does not run backwards.
    pub open spec fn wf(self) -> bool {
        self.start <= self.end
    }

    /// A span is inside a file of `len` bytes.
    pub open spec fn within(self, len: nat) -> bool {
        self.wf() && self.end <= len
    }

    /// The points covered by the span.
    pub open spec fn spec_contains(self, p: int) -> bool {
        self.start <= p < self.end
    }

    pub fn new(start: usize, end: usize) -> (s: Span)
        ensures
            s.start == start,
            s.end == end,
    {
        Span { start, end }
    }
}

/// Two spans overlap when each starts before the other ends.
pub open spec fn spec_spans_overlap(a: Span, b: Span) -> bool {
    a.start < b.end && b.start < a.end
}

/// Check if two spans overlap: one must start before the other ends.
pub fn spans_overlap(a: Span, b: Span) -> (r: bool)
    ensures
        r == spec_spans_overlap(a, b),
{
    a.start < b.end && b.start < a.end
}

} // verus!
