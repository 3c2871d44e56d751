//! Source positions.

use vstd::prelude::*;

verus! {

/// A range of bytes in source text.
#[derive(Clone, Copy, Debug, PartialEq, Eq, Structural, Hash)]
pub struct Span {
    pub offset: usize,
    pub len: usize,
}

/// The smaller of two numbers.
pub open spec fn least(a: int, b: int) -> int {
    if a <= b { a } else { b }
}

/// The larger of two numbers.
pub open spec fn greatest(a: int, b: int) -> int {
    if a >= b { a } else { b }
}

/// The first byte behind the span.
pub open spec fn span_end(span: Span) -> int {
    least(span.offset + span.len, usize::MAX as int)
}

/// The smallest span that covers both.
pub open spec fn merged(a: Span, b: Span) -> Span {
    let start = least(a.offset as int, b.offset as int);
    Span { offset: start as usize, len: (greatest(span_end(a), span_end(b)) - start) as usize }
}

/// The span that starts with `a` and ends with `b`; it is empty where `b` ends
/// before that.
pub open spec fn reaching(a: Span, b: Span) -> Span {
    Span { offset: a.offset, len: greatest(span_end(b) - a.offset, 0) as usize }
}

impl Span {
    pub fn new(offset: usize, len: usize) -> (r: Span)
        ensures
            r.offset == offset,
            r.len == len,
    {
        Span { offset, len }
    }

    pub fn offset(&self) -> (r: usize)
        ensures
            r == self.offset,
    {
        self.offset
    }

    pub fn len(&self) -> (r: usize)
        ensures
            r == self.len,
    {
        self.len
    }

    pub fn end(&self) -> (r: usize)
        ensures
            r == span_end(*self),
    {
        self.offset.saturating_add(self.len)
    }

    pub fn merge(self, other: Span) -> (r: Span)
        ensures
            r == merged(self, other),
    {
        let start = if self.offset <= other.offset { self.offset } else { other.offset };
        let a = self.end();
        let b = other.end();
        let end = if a >= b { a } else { b };
        Span { offset: start, len: end - start }
    }

    /// From the start of this span to the end of another.
    pub fn through(self, other: Span) -> (r: Span)
        ensures
            r == reaching(self, other),
    {
        let end = other.end();
        let len: usize = if end >= self.offset { end - self.offset } else { 0 };
        Span { offset: self.offset, len }
    }
}

/// A value with the place it was written at.
#[derive(Clone, Debug, PartialEq, Eq, Hash)]
pub struct Spanned<T> {
    pub value: T,
    pub span: Span,
}

impl<T> Spanned<T> {
    pub fn new(value: T, span: Span) -> (r: Spanned<T>)
        ensures
            r.value == value,
            r.span == span,
    {
        Spanned { value, span }
    }
}

} // verus!
