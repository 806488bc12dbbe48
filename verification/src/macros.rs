//! Macro nodes. The format reserves them; none of them has any text yet, and
//! no syntax is read as one.
use vstd::prelude::*;
use crate::fill::CafFill;
use crate::span::{span_verify_error, Span, SpanError, SpanErrorKind};
use crate::value::CobMacroParam;

verus! {

/// A call of a loadable macro.
#[derive(Debug, Clone, PartialEq)]
pub struct CafLoadableMacroCall;

/// The definition of a loadable macro.
#[derive(Debug, Clone, PartialEq)]
pub struct CafLoadableMacroDef;

/// The definition of a macro parameter.
#[derive(Debug, Clone, PartialEq)]
pub struct CobMacroParamDef;

impl CafLoadableMacroCall {
    /// Appends nothing.
    pub fn write_to(&self, out: &mut Vec<u8>)
        ensures
            final(out)@ == old(out)@,
    {
        self.write_to_with_space(out, "")
    }

    /// Appends nothing, whatever `space` is.
    pub fn write_to_with_space(&self, out: &mut Vec<u8>, space: &str)
        ensures
            final(out)@ == old(out)@,
    {
    }

    /// Reads nothing: the fill and the input come back as they were handed in.
    pub fn try_parse<'a>(fill: CafFill, content: Span<'a>) -> (r: Result<
        (Option<Self>, CafFill, Span<'a>),
        SpanError,
    >)
        ensures
            r == Ok::<(Option<Self>, CafFill, Span<'a>), SpanError>((None, fill, content)),
    {
        Ok((None, fill, content))
    }

    /// Changes nothing: the node has no fill.
    pub fn recover_fill(&mut self, other: &Self)
        ensures
            *final(self) == *old(self),
    {
    }
}

impl CafLoadableMacroDef {
    /// Appends nothing.
    pub fn write_to(&self, out: &mut Vec<u8>)
        ensures
            final(out)@ == old(out)@,
    {
        self.write_to_with_space(out, "")
    }

    /// Appends nothing, whatever `space` is.
    pub fn write_to_with_space(&self, out: &mut Vec<u8>, space: &str)
        ensures
            final(out)@ == old(out)@,
    {
    }

    /// Changes nothing: the node has no fill.
    pub fn recover_fill(&mut self, other: &Self)
        ensures
            *final(self) == *old(self),
    {
    }
}

impl CobMacroParamDef {
    /// Appends nothing.
    pub fn write_to(&self, out: &mut Vec<u8>)
        ensures
            final(out)@ == old(out)@,
    {
        self.write_to_with_space(out, "")
    }

    /// Appends nothing, whatever `space` is.
    pub fn write_to_with_space(&self, out: &mut Vec<u8>, space: &str)
        ensures
            final(out)@ == old(out)@,
    {
    }

    /// Changes nothing: the node has no fill.
    pub fn recover_fill(&mut self, other: &Self)
        ensures
            *final(self) == *old(self),
    {
    }
}

impl CobMacroParam {
    /// Reads a macro parameter where one must stand. None can be read yet,
    /// so this is an error at the front of `content`.
    pub fn parse_nomlike<'a>(content: Span<'a>) -> (r: Result<(Span<'a>, Self), SpanError>)
        ensures
            r matches Err(e) && e == (SpanError {
                offset: content.offset,
                kind: SpanErrorKind::Verify,
            }),
    {
        Err(span_verify_error(content.offset))
    }

    /// Whether the parameter must be given. No parameter is there yet.
    pub fn is_required(&self) -> (r: bool)
        ensures
            !r,
    {
        false
    }

    /// Whether the parameter takes up all entries that are left. No parameter is there yet.
    pub fn is_catch_all(&self) -> (r: bool)
        ensures
            !r,
    {
        false
    }

    /// Changes nothing: the node has no fill.
    pub fn recover_fill(&mut self, other: &Self)
        ensures
            *final(self) == *old(self),
    {
    }
}

} // verus!
