//! A cursor into the bytes of a document, and the error of a failed parse.
use vstd::prelude::*;

verus! {

/// The whole input together with the offset of the next byte to read.
#[derive(Clone, Copy, Debug, PartialEq, Eq)]
pub struct Span<'a> {
    pub data: &'a [u8],
    pub offset: usize,
}

impl<'a> Span<'a> {
    /// The offset lies inside the input or at its end.
    pub open spec fn wf(&self) -> bool {
        self.offset <= self.data@.len() <= usize::MAX
    }

    /// The bytes that have not been read yet.
    pub open spec fn remaining(&self) -> Seq<u8> {
        self.data@.subrange(self.offset as int, self.data@.len() as int)
    }

    /// A span at the start of `data`.
    pub fn new(data: &'a [u8]) -> (r: Span<'a>)
        ensures
            r.data == data,
            r.offset == 0,
            r.wf(),
    {
        let len = data.len();
        assert(len == data@.len());
        Span { data, offset: 0 }
    }

    /// The same input, read up to `offset`.
    pub fn at(&self, offset: usize) -> (r: Span<'a>)
        requires
            offset <= self.data@.len(),
        ensures
            r.data == self.data,
            r.offset == offset,
            r.wf(),
    {
        let len = self.data.len();
        assert(len == self.data@.len());
        Span { data: self.data, offset }
    }

    /// The number of bytes read so far.
    pub fn location(&self) -> (r: usize)
        ensures
            r == self.offset,
    {
        self.offset
    }

    /// Whether every byte has been read.
    pub fn is_empty(&self) -> (r: bool)
        requires
            self.wf(),
        ensures
            r == (self.remaining().len() == 0),
    {
        self.offset >= self.data.len()
    }
}

/// What a parser found wrong.
#[derive(Clone, Copy, Debug, PartialEq, Eq, Structural)]
pub enum SpanErrorKind {
    /// A required byte, such as a closing delimiter, is missing.
    Char,
    /// The input breaks a rule of the format.
    Verify,
}

/// A structural parse failure and the offset in the input at which it was found.
#[derive(Clone, Copy, Debug, PartialEq, Eq, Structural)]
pub struct SpanError {
    pub offset: usize,
    pub kind: SpanErrorKind,
}

/// The error for a missing byte at `offset`.
pub fn span_char_error(offset: usize) -> (r: SpanError)
    ensures
        r == (SpanError { offset, kind: SpanErrorKind::Char }),
{
    SpanError { offset, kind: SpanErrorKind::Char }
}

/// The error for a broken rule at `offset`.
pub fn span_verify_error(offset: usize) -> (r: SpanError)
    ensures
        r == (SpanError { offset, kind: SpanErrorKind::Verify }),
{
    SpanError { offset, kind: SpanErrorKind::Verify }
}

} // verus!
