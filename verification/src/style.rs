//! The rules by which a style sheet sorts the entries of a branch, and the
//! stack from which an entry inherits its value.
use vstd::prelude::*;
use vstd::string::{StrSliceExecFns, StringSliceAdditionalSpecFns};
use crate::bytes::starts_at;

verus! {

/// What `char::is_uppercase` says of a character.
pub uninterp spec fn char_is_uppercase(c: char) -> bool;

/// Calls `char::is_uppercase`, which tells whether a character has the
/// Unicode property `Uppercase`.
#[verifier::external_body]
fn is_uppercase(c: char) -> (r: bool)
    ensures
        r == char_is_uppercase(c),
{
    c.is_uppercase()
}

/// The bytes of the key `using`.
pub open spec fn using_text() -> Seq<u8> {
    seq![117u8, 115, 105, 110, 103]
}

/// Whether an entry is the `using` section: the very first key of the file,
/// spelled `using`.
pub fn is_using_entry(depth: usize, count: usize, key: &str) -> (r: bool)
    ensures
        r == (depth == 0 && count == 0 && key.spec_bytes() == using_text()),
{
    if depth != 0 || count != 0 {
        return false;
    }
    let bytes = key.as_bytes();
    let using = vec![117u8, 115, 105, 110, 103];
    assert(using@ == using_text());
    if bytes.len() != 5 {
        return false;
    }
    let r = starts_at(bytes, 0, using.as_slice());
    proof {
        assert(bytes@.subrange(0, 5) =~= bytes@);
    }
    r
}

/// Whether a key names a style: its first character is upper case.
pub fn is_style_entry(key: &str) -> (r: bool)
    ensures
        r == (key@.len() > 0 && char_is_uppercase(key@[0])),
{
    if key.is_empty() {
        return false;
    }
    is_uppercase(key.get_char(0))
}

/// The value that an entry marked as inherited takes: the last one on the
/// stack of its style, or none where the stack is empty.
pub fn get_inherited_style_value<T: Clone>(style_entry: &Vec<T>) -> (r: Option<T>)
    ensures
        match r {
            Some(value) => style_entry@.len() > 0 && cloned(
                style_entry@[style_entry@.len() - 1],
                value,
            ),
            None => style_entry@.len() == 0,
        },
{
    if style_entry.len() == 0 {
        return None;
    }
    Some(style_entry[style_entry.len() - 1].clone())
}

} // verus!
