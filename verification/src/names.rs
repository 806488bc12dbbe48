//! Names: the identifiers of fields and enum variants, held as `SmolStr`.
use vstd::prelude::*;
use vstd::string::StringSliceAdditionalSpecFns;
use smol_str::SmolStr;

verus! {

/// `smol_str::SmolStr`, an immutable string that is cheap to copy. Nothing
/// inside it is known here but through `name_bytes`.
#[verifier::external_type_specification]
#[verifier::external_body]
pub struct ExSmolStr(SmolStr);

/// The UTF-8 bytes of the text that a `SmolStr` holds.
pub uninterp spec fn name_bytes(name: SmolStr) -> Seq<u8>;

/// `SmolStr::clone` gives a name that holds the same text.
pub assume_specification[ <smol_str::SmolStr as Clone>::clone ](name: &smol_str::SmolStr) -> (r:
    smol_str::SmolStr)
    ensures
        name_bytes(r) == name_bytes(*name),
;

/// Calls `SmolStr::new`, which copies the text it is given: the name holds
/// the bytes of `text`.
#[verifier::external_body]
pub(crate) fn name_new(text: &str) -> (r: SmolStr)
    ensures
        name_bytes(r) == text.spec_bytes(),
{
    SmolStr::new(text)
}

/// Calls `SmolStr::as_str`, which lends the text that the name holds.
#[verifier::external_body]
pub(crate) fn name_as_str(name: &SmolStr) -> (r: &str)
    ensures
        r.spec_bytes() == name_bytes(*name),
{
    name.as_str()
}

/// Calls `std::str::from_utf8` on bytes that are all ASCII. ASCII is valid
/// UTF-8, so the call succeeds and the text has exactly these bytes.
#[verifier::external_body]
pub(crate) fn ascii_as_str(bytes: &[u8]) -> (r: &str)
    requires
        forall|i: int| 0 <= i < bytes@.len() ==> bytes@[i] < 128,
    ensures
        r.spec_bytes() == bytes@,
{
    std::str::from_utf8(bytes).unwrap_or_default()
}

} // verus!
