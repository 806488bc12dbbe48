//! JSON values as the bridge to typed data sees them.
use vstd::prelude::*;
use vstd::utf8::{encode_utf8, valid_utf8};
use serde_json::Number;
use crate::json_number::number_text;

verus! {

/// One member of a JSON object.
#[derive(Debug, PartialEq)]
pub struct JsonEntry {
    pub key: String,
    pub value: JsonValue,
}

/// A JSON value. An object holds its members in order, and no key twice.
#[derive(Debug, PartialEq)]
pub enum JsonValue {
    Null,
    Bool(bool),
    Number(Number),
    String(String),
    Array(Vec<JsonValue>),
    Object(Vec<JsonEntry>),
}

/// The mathematical model of a [`JsonValue`]. Text is held as its UTF-8
/// bytes, a number as the text that stands for it.
pub enum JsonModel {
    Null,
    Bool(bool),
    Number(Seq<u8>),
    String(Seq<u8>),
    Array(Seq<JsonModel>),
    Object(Seq<(Seq<u8>, JsonModel)>),
}

/// Why a node cannot be converted.
#[derive(Debug, Clone, Copy, PartialEq, Eq, Structural)]
pub enum CafError {
    /// A builtin does not have the shape of its type.
    MalformedBuiltin,
    /// A map holds a macro parameter, which stands for no value.
    MacroParam,
    /// A map key is neither a field name, a string, a number nor a bare name.
    MapKey,
    /// A colour channel could not be written as a JSON number.
    ColorNumber,
}

pub type CafResult<T> = Result<T, CafError>;

/// The models of a sequence of JSON values.
pub open spec fn jsons_view(vs: Seq<JsonValue>) -> Seq<JsonModel>
    decreases vs,
{
    if vs.len() == 0 {
        Seq::empty()
    } else {
        jsons_view(vs.drop_last()).push(vs.last()@)
    }
}

/// The models of the members of a JSON object.
pub open spec fn members_view(es: Seq<JsonEntry>) -> Seq<(Seq<u8>, JsonModel)>
    decreases es,
{
    if es.len() == 0 {
        Seq::empty()
    } else {
        members_view(es.drop_last()).push((encode_utf8(es.last().key@), es.last().value@))
    }
}

impl View for JsonValue {
    type V = JsonModel;

    open spec fn view(&self) -> JsonModel
        decreases self,
    {
        match self {
            JsonValue::Null => JsonModel::Null,
            JsonValue::Bool(b) => JsonModel::Bool(*b),
            JsonValue::Number(n) => JsonModel::Number(number_text(*n)),
            JsonValue::String(s) => JsonModel::String(encode_utf8(s@)),
            JsonValue::Array(vs) => JsonModel::Array(jsons_view(vs@)),
            JsonValue::Object(es) => JsonModel::Object(members_view(es@)),
        }
    }
}

/// `jsons_view` keeps the length and maps each value to its model.
pub proof fn lemma_jsons_view(vs: Seq<JsonValue>)
    ensures
        jsons_view(vs).len() == vs.len(),
        forall|i: int| 0 <= i < vs.len() ==> #[trigger] jsons_view(vs)[i] == vs[i]@,
    decreases vs.len(),
{
    if vs.len() > 0 {
        lemma_jsons_view(vs.drop_last());
        assert(jsons_view(vs) == jsons_view(vs.drop_last()).push(vs.last()@));
    } else {
        assert(jsons_view(vs) == Seq::<JsonModel>::empty());
    }
}

/// `members_view` keeps the length and maps each member to its model.
pub proof fn lemma_members_view(es: Seq<JsonEntry>)
    ensures
        members_view(es).len() == es.len(),
        forall|i: int|
            0 <= i < es.len() ==> #[trigger] members_view(es)[i] == (
                encode_utf8(es[i].key@),
                es[i].value@,
            ),
    decreases es.len(),
{
    if es.len() > 0 {
        lemma_members_view(es.drop_last());
        assert(members_view(es) == members_view(es.drop_last()).push(
            (encode_utf8(es.last().key@), es.last().value@),
        ));
    } else {
        assert(members_view(es) == Seq::<(Seq<u8>, JsonModel)>::empty());
    }
}

/// The text that `String::from_utf8_lossy` makes of bytes, as UTF-8 bytes.
pub uninterp spec fn utf8_lossy(bytes: Seq<u8>) -> Seq<u8>;

/// The text that bytes stand for: the bytes themselves where they are
/// UTF-8, else what `String::from_utf8_lossy` makes of them.
pub open spec fn text_of_bytes(bytes: Seq<u8>) -> Seq<u8> {
    if valid_utf8(bytes) {
        bytes
    } else {
        utf8_lossy(bytes)
    }
}

/// Calls `String::from_utf8_lossy`, which turns bytes into text: valid
/// UTF-8 is kept as it is, and the replacement character is put where the
/// bytes are not UTF-8.
#[verifier::external_body]
pub(crate) fn text_from_utf8(bytes: &[u8]) -> (r: String)
    ensures
        encode_utf8(r@) == if valid_utf8(bytes@) {
            bytes@
        } else {
            utf8_lossy(bytes@)
        },
{
    String::from_utf8_lossy(bytes).into_owned()
}

/// The index of the first member of `obj` at or after `from` whose key is `key`.
pub open spec fn object_find(obj: Seq<(Seq<u8>, JsonModel)>, key: Seq<u8>, from: int) -> Option<
    int,
>
    decreases obj.len() - from,
{
    if from < 0 || from >= obj.len() {
        None
    } else if obj[from].0 == key {
        Some(from)
    } else {
        object_find(obj, key, from + 1)
    }
}

/// The object with `key` set to `value`: in the place of the member that has
/// the key, or at the end where none has.
pub open spec fn object_insert(obj: Seq<(Seq<u8>, JsonModel)>, key: Seq<u8>, value: JsonModel)
    -> Seq<(Seq<u8>, JsonModel)> {
    match object_find(obj, key, 0) {
        Some(i) => obj.update(i, (key, value)),
        None => obj.push((key, value)),
    }
}

/// The object with the one member `key`: `value`.
pub open spec fn object_of(key: Seq<u8>, value: JsonModel) -> JsonModel {
    JsonModel::Object(seq![(key, value)])
}

/// Whether two texts hold the same bytes.
pub fn same_text(a: &str, b: &str) -> (r: bool)
    ensures
        r == (encode_utf8(a@) == encode_utf8(b@)),
{
    let x = a.as_bytes();
    let y = b.as_bytes();
    if x.len() != y.len() {
        return false;
    }
    let r = crate::bytes::starts_at(x, 0, y);
    proof {
        assert(x@.subrange(0, x@.len() as int) =~= x@);
    }
    r
}

/// Whether the member at `i` has the key `key`.
fn same_key(members: &Vec<JsonEntry>, i: usize, key: &String) -> (r: bool)
    requires
        i < members@.len(),
    ensures
        r == (encode_utf8(members@[i as int].key@) == encode_utf8(key@)),
{
    same_text(members[i].key.as_str(), key.as_str())
}

/// Sets `key` to `value` in the members of an object.
pub fn insert_member(members: &mut Vec<JsonEntry>, key: String, value: JsonValue)
    ensures
        members_view(final(members)@) == object_insert(
            members_view(old(members)@),
            encode_utf8(key@),
            value@,
        ),
{
    let ghost before = members_view(members@);
    let ghost k = encode_utf8(key@);
    let ghost v = value@;
    proof {
        lemma_members_view(members@);
    }
    let mut i: usize = 0;
    while i < members.len()
        invariant
            0 <= i <= members@.len(),
            members@ == old(members)@,
            k == encode_utf8(key@),
            v == value@,
            before == members_view(members@),
            before.len() == members@.len(),
            forall|j: int|
                0 <= j < members@.len() ==> #[trigger] before[j] == (
                    encode_utf8(members@[j].key@),
                    members@[j].value@,
                ),
            object_find(before, k, 0) == object_find(before, k, i as int),
        decreases members@.len() - i,
    {
        let same = same_key(members, i, &key);
        proof {
            assert(before[i as int] == (encode_utf8(members@[i as int].key@), members@[i as int].value@));
            assert(same == (before[i as int].0 == k));
        }
        if same {
            let ghost old_members = members@;
            let _ = members.remove(i);
            members.insert(i, JsonEntry { key, value });
            proof {
                lemma_members_view(members@);
                assert(before[i as int].0 == k);
                assert(members_view(members@) =~= before.update(i as int, (k, v)));
            }
            return ;
        }
        proof {
            assert(before[i as int].0 != k);
        }
        i += 1;
    }
    members.push(JsonEntry { key, value });
    proof {
        lemma_members_view(members@);
        assert(members_view(members@) =~= before.push((k, v)));
    }
}

/// The object with one member.
pub fn object_with(key: String, value: JsonValue) -> (r: JsonValue)
    ensures
        r@ == object_of(encode_utf8(key@), value@),
{
    let mut members: Vec<JsonEntry> = Vec::new();
    members.push(JsonEntry { key, value });
    proof {
        lemma_members_view(members@);
        assert(members_view(members@) =~= seq![(encode_utf8(key@), value@)]);
    }
    JsonValue::Object(members)
}

} // verus!
