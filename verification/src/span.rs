//! Source locations attached to syntax.

use vstd::prelude::*;

verus! {

/// The identity of a source file, as handed out by the file database.
#[derive(Clone, Copy, PartialEq, Eq, Structural, Debug)]
pub struct FileId(pub u32);

/// A byte range `start..end` within one source file.
#[derive(Clone, Copy, PartialEq, Eq, Structural, Debug)]
pub struct RawSpan {
    pub start: u32,
    pub end: u32,
}

impl RawSpan {
    /// The byte range `start..end`; the end must not come before the start.
    pub fn new(start: u32, end: u32) -> (r: RawSpan)
        requires
            start <= end,
        ensures
            r.start() == start,
            r.end() == end,
    {
        RawSpan { start, end }
    }

    /// The first byte of the range.
    pub open spec fn start(self) -> u32 {
        self.start
    }

    /// The byte just past the range.
    pub open spec fn end(self) -> u32 {
        self.end
    }

    /// The first byte of the range.
    pub fn get_start(&self) -> (r: u32)
        ensures
            r == self.start(),
    {
        self.start
    }

    /// The byte just past the range.
    pub fn get_end(&self) -> (r: u32)
        ensures
            r == self.end(),
    {
        self.end
    }

    /// Every range ends no earlier than it starts.
    pub open spec fn wf(self) -> bool {
        self.start <= self.end
    }
}

/// A location inside a user-provided source file.
#[derive(Clone, Copy, PartialEq, Eq, Structural, Debug)]
pub struct ExternalSpan {
    pub file_id: FileId,
    pub span: RawSpan,
}

impl ExternalSpan {
    /// The byte range `start..end` of file `file_id`.
    pub fn new(file_id: FileId, start: u32, end: u32) -> (r: ExternalSpan)
        requires
            start <= end,
        ensures
            r.file_id == file_id,
            r.span.start() == start,
            r.span.end() == end,
    {
        ExternalSpan { file_id, span: RawSpan::new(start, end) }
    }
}

/// Where a piece of syntax came from: either a user-provided file, or
/// synthesized internally by the compiler.
#[derive(Clone, Copy, PartialEq, Eq, Structural, Debug)]
pub enum Span {
    Internal,
    External(ExternalSpan),
}

impl Span {
    /// The byte range `start..end` of file `file_id`.
    pub fn new(file_id: FileId, start: u32, end: u32) -> (r: Span)
        requires
            start <= end,
        ensures
            r matches Span::External(e) && e.file_id == file_id && e.span.start() == start
                && e.span.end() == end,
    {
        Span::External(ExternalSpan::new(file_id, start, end))
    }

    /// The span of an external location.
    pub fn from_external(external_span: ExternalSpan) -> (r: Span)
        ensures
            r == Span::External(external_span),
    {
        Span::External(external_span)
    }
}

/// A value together with the location it came from.
#[derive(Clone, Copy, Debug)]
pub struct Spanned<T> {
    pub span: Span,
    pub value: T,
}

impl<T> Spanned<T> {
    /// Attaches `span` to `value`.
    pub fn new(span: Span, value: T) -> (r: Spanned<T>)
        ensures
            r.span == span,
            r.value == value,
    {
        Spanned { span, value }
    }

    /// Marks `value` as synthesized internally.
    pub fn internal(value: T) -> (r: Spanned<T>)
        ensures
            r.span == Span::Internal,
            r.value == value,
    {
        Spanned { span: Span::Internal, value }
    }

    /// Transforms the value, keeping the span.
    pub fn map<U, F: FnOnce(T) -> U>(self, f: F) -> (r: Spanned<U>)
        requires
            f.requires((self.value,)),
        ensures
            r.span == self.span,
            f.ensures((self.value,), r.value),
    {
        Spanned { span: self.span, value: f(self.value) }
    }

    /// Borrows the value, keeping the span.
    pub fn as_ref(&self) -> (r: Spanned<&T>)
        ensures
            r.span == self.span,
            *r.value == self.value,
    {
        Spanned { span: self.span, value: &self.value }
    }
}

impl<'a, T: Clone> Spanned<&'a T> {
    /// Clones the borrowed value, keeping the span.
    pub fn cloned(self) -> (r: Spanned<T>)
        ensures
            r.span == self.span,
            cloned(*self.value, r.value),
    {
        Spanned { span: self.span, value: self.value.clone() }
    }
}

impl<'a, T: Copy> Spanned<&'a T> {
    /// Copies the borrowed value, keeping the span.
    pub fn copied(self) -> (r: Spanned<T>)
        ensures
            r.span == self.span,
            r.value == *self.value,
    {
        Spanned { span: self.span, value: *self.value }
    }
}

/// A value that may or may not come with a location.
#[derive(Clone, Copy, Debug)]
pub struct MaybeSpanned<T> {
    pub span: Option<Span>,
    pub value: T,
}

impl<T> MaybeSpanned<T> {
    /// Attaches the optional `span` to `value`.
    pub fn new(span: Option<Span>, value: T) -> (r: MaybeSpanned<T>)
        ensures
            r.span == span,
            r.value == value,
    {
        MaybeSpanned { span, value }
    }

    /// Transforms the value, keeping the span.
    pub fn map<U, F: FnOnce(T) -> U>(self, f: F) -> (r: MaybeSpanned<U>)
        requires
            f.requires((self.value,)),
        ensures
            r.span == self.span,
            f.ensures((self.value,), r.value),
    {
        MaybeSpanned { span: self.span, value: f(self.value) }
    }

    /// Borrows the value, keeping the span.
    pub fn as_ref(&self) -> (r: MaybeSpanned<&T>)
        ensures
            r.span == self.span,
            *r.value == self.value,
    {
        MaybeSpanned { span: self.span, value: &self.value }
    }

    /// A value without a location.
    pub fn from_value(value: T) -> (r: MaybeSpanned<T>)
        ensures
            r.span is None,
            r.value == value,
    {
        MaybeSpanned::new(None, value)
    }

    /// A value whose location is known.
    pub fn from_spanned(spanned: Spanned<T>) -> (r: MaybeSpanned<T>)
        ensures
            r.span == Some(spanned.span),
            r.value == spanned.value,
    {
        MaybeSpanned::new(Some(spanned.span), spanned.value)
    }
}

impl<'a, T: Clone> MaybeSpanned<&'a T> {
    /// Clones the borrowed value, keeping the span.
    pub fn cloned(self) -> (r: MaybeSpanned<T>)
        ensures
            r.span == self.span,
            cloned(*self.value, r.value),
    {
        MaybeSpanned { span: self.span, value: self.value.clone() }
    }
}

impl<'a, T: Copy> MaybeSpanned<&'a T> {
    /// Copies the borrowed value, keeping the span.
    pub fn copied(self) -> (r: MaybeSpanned<T>)
        ensures
            r.span == self.span,
            r.value == *self.value,
    {
        MaybeSpanned { span: self.span, value: *self.value }
    }
}

} // verus!
