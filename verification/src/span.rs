//! Spans of the source text.

use vstd::prelude::*;

verus! {

/// A half-open byte range `[from, to)` of the source text, with the
/// 1-based line and column of its first byte.
#[derive(Clone, Copy, Debug, PartialEq, Eq, Structural)]
pub struct Span {
    pub from: usize,
    pub to: usize,
    pub line: usize,
    pub column: usize,
}

/// A value together with the span of source text it came from.
#[derive(Clone, Debug, PartialEq, Eq)]
pub struct Spanned<T> {
    pub node: T,
    pub span: Span,
}

impl<T: View> View for Spanned<T> {
    type V = Spanned<T::V>;

    open spec fn view(&self) -> Spanned<T::V> {
        Spanned { node: self.node@, span: self.span }
    }
}

impl Span {
    /// The span lies where a text can: it does not end before it begins,
    /// and its line and column are at least 1 and no more than lines and
    /// columns can be up to its first byte.
    pub open spec fn wf(self) -> bool {
        &&& self.from <= self.to
        &&& 1 <= self.line <= self.from + 1
        &&& 1 <= self.column <= self.from + 1
    }

    /// The span of `len` bytes that starts `skip` bytes into this one, on the
    /// same line.
    pub fn part(&self, skip: usize, len: usize) -> (r: Span)
        requires
            self.wf(),
            len > 0,
            self.from + skip + len <= self.to,
        ensures
            r == self.spec_part(skip as int, len as int),
            r.wf(),
    {
        Span {
            from: self.from + skip,
            to: self.from + skip + len,
            line: self.line,
            column: self.column + skip,
        }
    }

    /// The span of `len` bytes that starts `skip` bytes into this one, on the
    /// same line.
    pub open spec fn spec_part(self, skip: int, len: int) -> Span {
        Span {
            from: (self.from + skip) as usize,
            to: (self.from + skip + len) as usize,
            line: self.line,
            column: (self.column + skip) as usize,
        }
    }
}

} // verus!
