//! Byte ranges into a document's text, and values that remember where
//! they were written.

use vstd::prelude::*;

verus! {

/// A half-open range `[start, end)` of byte offsets into a document's text.
#[derive(Clone, Copy, Debug, PartialEq, Eq, Structural)]
pub struct SourceSpan {
    pub start: usize,
    pub end: usize,
}

impl SourceSpan {
    /// The range `[start, end)`.
    pub fn new(start: usize, end: usize) -> (span: SourceSpan)
        ensures
            span.start == start,
            span.end == end,
    {
        SourceSpan { start, end }
    }

    /// The empty range at `offset`, which marks a single point of the text.
    pub fn point(offset: usize) -> (span: SourceSpan)
        ensures
            span.start == offset,
            span.end == offset,
    {
        SourceSpan { start: offset, end: offset }
    }

    /// The offset at which the range begins.
    pub fn offset(&self) -> (offset: usize)
        ensures
            offset == self.start,
    {
        self.start
    }

    /// Checks that the range is well ordered and ends inside a text of
    /// `len` bytes.
    pub fn check_fits(&self, len: usize) -> (ok: bool)
        ensures
            ok == self.fits(len as nat),
    {
        self.start <= self.end && self.end <= len
    }

    /// Whether the range is well ordered and ends inside a text of `len` bytes.
    pub open spec fn fits(self, len: nat) -> bool {
        self.start <= self.end && self.end <= len
    }
}

/// A value together with the range of the text it was read from.
#[derive(Debug)]
pub struct Located<T> {
    pub value: T,
    pub span: SourceSpan,
}

/// What a `Located` holds, the value taken by its model.
pub struct LocatedView<A> {
    pub value: A,
    pub span: SourceSpan,
}

impl<T: DeepView> DeepView for Located<T> {
    type V = LocatedView<T::V>;

    open spec fn deep_view(&self) -> LocatedView<T::V> {
        LocatedView { value: self.value.deep_view(), span: self.span }
    }
}

impl<T> Located<T> {
    /// `value`, read from `span`.
    pub fn new(span: SourceSpan, value: T) -> (spanned: Located<T>)
        ensures
            spanned.value == value,
            spanned.span == span,
    {
        Located { value, span }
    }

    /// The value.
    pub fn get_ref(&self) -> (value: &T)
        ensures
            *value == self.value,
    {
        &self.value
    }

    /// The offset at which the value begins.
    pub fn start(&self) -> (offset: usize)
        ensures
            offset == self.span.start,
    {
        self.span.start
    }

    /// The offset just past the value.
    pub fn end(&self) -> (offset: usize)
        ensures
            offset == self.span.end,
    {
        self.span.end
    }
}

/// A document: its name, used to attribute diagnostics, and its full text.
#[derive(Debug)]
pub struct NamedSource {
    pub name: String,
    pub text: String,
}

/// A document over plain sequences of characters.
pub struct Source {
    pub name: Seq<char>,
    pub text: Seq<char>,
}

impl DeepView for NamedSource {
    type V = Source;

    open spec fn deep_view(&self) -> Source {
        Source { name: self.name@, text: self.text@ }
    }
}

impl NamedSource {
    /// The document called `name` whose text is `text`.
    pub fn new(name: &str, text: &str) -> (src: NamedSource)
        ensures
            src.deep_view() == (Source { name: name@, text: text@ }),
    {
        NamedSource { name: name.to_owned(), text: text.to_owned() }
    }
}

} // verus!
