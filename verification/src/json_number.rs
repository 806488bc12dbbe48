//! JSON numbers, held as `serde_json::Number`.
use vstd::prelude::*;
use vstd::string::StringSliceAdditionalSpecFns;
use vstd::utf8::encode_utf8;
use serde_json::Number;

verus! {

/// `serde_json::Number`, a JSON number. Nothing inside it is known here but
/// through `number_text`.
#[verifier::external_type_specification]
#[verifier::external_body]
pub struct ExNumber(Number);

/// The text of a number: the bytes that its `Display` impl writes.
pub uninterp spec fn number_text(n: Number) -> Seq<u8>;

/// What `Number::from_str` makes of a text: the text of the number read, or
/// `None` where it rejects the text.
pub uninterp spec fn json_number_text(text: Seq<u8>) -> Option<Seq<u8>>;

/// Calls `Number::from_str` (through `str::parse`), which reads one JSON
/// number that must fill the whole text, and drops the error's detail.
#[verifier::external_body]
pub(crate) fn number_from_text(text: &str) -> (r: Option<Number>)
    ensures
        match r {
            Some(n) => json_number_text(text.spec_bytes()) == Some(number_text(n)),
            None => json_number_text(text.spec_bytes()) is None,
        },
{
    text.parse::<Number>().ok()
}

/// Calls `Number::to_string`, which writes the number as its `Display` impl does.
#[verifier::external_body]
pub(crate) fn number_to_text(n: &Number) -> (r: String)
    ensures
        encode_utf8(r@) == number_text(*n),
{
    n.to_string()
}

/// `Number::clone` gives the same number.
pub assume_specification[ <serde_json::Number as Clone>::clone ](n: &serde_json::Number) -> (r:
    serde_json::Number)
    ensures
        r == *n,
;

} // verus!
