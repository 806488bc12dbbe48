//! A whole document: one value, or none, and the fill that ends the file.
use vstd::prelude::*;
use crate::fill::{fill_end, fill_segments, fill_text, lemma_fill_parse, CafFill};
use crate::grammar::{spec_value, verify_error, Parsed};
use crate::recover::value_recovered;
use crate::strip::value_stripped;
use crate::soundness::{lemma_split, lemma_value};
use crate::span::{span_verify_error, Span, SpanError};
use crate::value::{value_body, value_text, CafValue, Fill, ValueModel};

verus! {

/// A parsed document.
#[derive(Debug, Clone, PartialEq)]
pub struct Caf {
    /// The value of the document, with the fill in front of it.
    pub value: Option<CafValue>,
    /// The fill between the value and the end of the input.
    pub end_fill: CafFill,
}

/// The mathematical model of a [`Caf`].
pub struct DocumentModel {
    pub value: Option<ValueModel>,
    pub end_fill: Fill,
}

impl View for Caf {
    type V = DocumentModel;

    open spec fn view(&self) -> DocumentModel {
        DocumentModel {
            value: match self.value {
                Some(v) => Some(v@),
                None => None,
            },
            end_fill: self.end_fill@,
        }
    }
}

/// The document without any fill.
pub open spec fn document_stripped(d: DocumentModel) -> DocumentModel {
    DocumentModel {
        value: match d.value {
            Some(v) => Some(value_stripped(v)),
            None => None,
        },
        end_fill: Seq::empty(),
    }
}

/// A document that holds what `old` holds becomes `old` when it recovers
/// the formatting of `old`, and is then written as `old` is.
pub proof fn lemma_document_recovers(new: DocumentModel, old: DocumentModel)
    requires
        document_stripped(new) == document_stripped(old),
    ensures
        document_recovered(new, old) == old,
{
    match (new.value, old.value) {
        (Some(a), Some(b)) => {
            crate::recover_laws::lemma_value_recovers(a, b);
        },
        _ => {},
    }
}

/// The document `new` with the formatting of `old`.
pub open spec fn document_recovered(new: DocumentModel, old: DocumentModel) -> DocumentModel {
    DocumentModel {
        value: match (new.value, old.value) {
            (Some(a), Some(b)) => Some(value_recovered(a, b)),
            _ => new.value,
        },
        end_fill: old.end_fill,
    }
}

/// The bytes that a document stands for.
pub open spec fn document_text(d: DocumentModel) -> Seq<u8> {
    (match d.value {
        Some(v) => value_text(v, Seq::empty()),
        None => Seq::empty(),
    }) + fill_text(d.end_fill)
}

/// What the whole input `s` is read as: fill, at most one value, and fill to
/// the end. Anything left over is an error at the offset where it starts.
pub open spec fn spec_document(s: Seq<u8>) -> Result<DocumentModel, SpanError> {
    let fill = fill_segments(s, 0);
    let at = fill_end(s, 0);
    match spec_value(s, at, fill) {
        Parsed::Fail(e) => Err(e),
        Parsed::Skip => if at == s.len() {
            Ok(DocumentModel { value: None, end_fill: fill })
        } else {
            Err(verify_error(at))
        },
        Parsed::Take(v, end_fill, next) => if next == s.len() {
            Ok(DocumentModel { value: Some(v), end_fill })
        } else {
            Err(verify_error(next))
        },
    }
}

/// Writing a parsed document gives back the input, byte for byte.
pub proof fn lemma_round_trip(s: Seq<u8>)
    ensures
        spec_document(s) matches Ok(d) ==> document_text(d) == s,
{
    lemma_fill_parse(s, 0);
    let fill = fill_segments(s, 0);
    let at = fill_end(s, 0);
    lemma_value(s, at, fill);
    match spec_document(s) {
        Ok(d) => {
            match spec_value(s, at, fill) {
                Parsed::Take(v, end_fill, next) => {
                    lemma_split(s, 0, at, next);
                    assert(s.subrange(0, s.len() as int) =~= s);
                    if fill.len() == 0 {
                        assert(fill_text(fill) =~= Seq::<u8>::empty());
                    }
                    assert(document_text(d) =~= fill_text(fill) + (value_body(v) + fill_text(
                        end_fill,
                    )));
                },
                _ => {
                    assert(s.subrange(0, s.len() as int) =~= s);
                    assert(document_text(d) =~= fill_text(fill));
                },
            }
        },
        _ => {},
    }
}

/// Writing a parsed document and reading what was written gives the same
/// document again.
pub proof fn lemma_reparse(s: Seq<u8>)
    ensures
        spec_document(s) matches Ok(d) ==> spec_document(document_text(d)) == Ok::<
            DocumentModel,
            SpanError,
        >(d),
{
    lemma_round_trip(s);
}

/// A document that cannot be read has its error at an offset inside the input.
pub proof fn lemma_error_located(s: Seq<u8>)
    requires
        s.len() <= usize::MAX,
    ensures
        spec_document(s) matches Err(e) ==> e.offset <= s.len(),
{
    lemma_fill_parse(s, 0);
    let at = fill_end(s, 0);
    lemma_value(s, at, fill_segments(s, 0));
    crate::locations::lemma_value_located(s, at, fill_segments(s, 0));
}

impl Default for Caf {
    fn default() -> (r: Self)
        ensures
            r@ == (DocumentModel { value: None, end_fill: Seq::empty() }),
    {
        Caf { value: None, end_fill: CafFill::new() }
    }
}

impl Caf {
    /// Reads a whole document.
    pub fn parse(input: &[u8]) -> (r: Result<Caf, SpanError>)
        ensures
            match spec_document(input@) {
                Ok(d) => r matches Ok(doc) && doc@ == d,
                Err(e) => r matches Err(found) && found == e,
            },
    {
        let (fill, at) = CafFill::parse(Span::new(input));
        match CafValue::try_parse(fill, at) {
            Err(e) => Err(e),
            Ok((None, end_fill, rest)) => {
                if rest.offset == input.len() {
                    Ok(Caf { value: None, end_fill })
                } else {
                    Err(span_verify_error(rest.offset))
                }
            },
            Ok((Some(value), end_fill, rest)) => {
                if rest.offset == input.len() {
                    Ok(Caf { value: Some(value), end_fill })
                } else {
                    Err(span_verify_error(rest.offset))
                }
            },
        }
    }

    /// Appends the document's bytes to `out`.
    pub fn write_to(&self, out: &mut Vec<u8>)
        ensures
            final(out)@ == old(out)@ + document_text(self@),
    {
        match &self.value {
            Some(value) => {
                value.write_to(out);
            },
            None => {},
        }
        self.end_fill.write_to(out);
        proof {
            assert(final(out)@ =~= old(out)@ + document_text(self@));
        }
    }

    /// A copy of the document.
    pub fn duplicate(&self) -> (r: Self)
        ensures
            r@ == self@,
    {
        Caf {
            value: match &self.value {
                Some(value) => Some(value.duplicate()),
                None => None,
            },
            end_fill: self.end_fill.duplicate(),
        }
    }

    /// Whether two documents hold the same value, whatever their fill.
    pub fn eq_ignore_whitespace(&self, other: &Self) -> (r: bool)
        ensures
            r == (document_stripped(self@) == document_stripped(other@)),
    {
        match (&self.value, &other.value) {
            (Some(a), Some(b)) => a.eq_ignore_whitespace(b),
            (None, None) => true,
            _ => false,
        }
    }

    /// Takes over the formatting of `other`: the fill at the end, and the
    /// fill of the value as far as the shapes of the two values agree.
    pub fn recover_fill(&mut self, other: &Self)
        ensures
            final(self)@ == document_recovered(old(self)@, other@),
    {
        match (&mut self.value, &other.value) {
            (Some(value), Some(other_value)) => {
                value.recover_fill(other_value);
            },
            _ => (),
        }
        self.end_fill.recover(&other.end_fill);
    }

    /// Reads `input` and, where it is a document, writes it to a new buffer.
    /// What is written is the input.
    pub fn rewrite(input: &[u8]) -> (r: Result<Vec<u8>, SpanError>)
        ensures
            match spec_document(input@) {
                Ok(d) => r matches Ok(out) && out@ == input@,
                Err(e) => r matches Err(found) && found == e,
            },
    {
        proof {
            lemma_round_trip(input@);
        }
        match Caf::parse(input) {
            Ok(doc) => {
                let mut out: Vec<u8> = Vec::new();
                doc.write_to(&mut out);
                proof {
                    assert(Seq::<u8>::empty() + document_text(doc@) =~= document_text(doc@));
                }
                Ok(out)
            },
            Err(e) => Err(e),
        }
    }
}

} // verus!
