use vstd::prelude::*;
use vstd::math::{max, min};

verus! {

/// A half-open byte range `[start, end)` inside a named source file.
#[derive(Clone, Copy, Debug, PartialEq, Eq)]
pub struct Span {
    pub filename: &'static str,
    pub start: usize,
    pub end: usize,
}

/// The smallest span covering `a` and `b`, in the file of `a`.
pub open spec fn span_union(a: Span, b: Span) -> Span {
    Span {
        filename: a.filename,
        start: min(a.start as int, b.start as int) as usize,
        end: max(a.end as int, b.end as int) as usize,
    }
}

impl Span {
    /// The empty span sitting at `offset`.
    pub fn at(filename: &'static str, offset: usize) -> (r: Span)
        ensures
            r.filename == filename,
            r.start == offset,
            r.end == offset,
    {
        Span { filename, start: offset, end: offset }
    }

    /// The smallest span covering both `self` and `other`.
    pub fn extend(self, other: Span) -> (r: Span)
        ensures
            r == span_union(self, other),
    {
        Span {
            filename: self.filename,
            start: if self.start <= other.start { self.start } else { other.start },
            end: if self.end >= other.end { self.end } else { other.end },
        }
    }
}

} // verus!
