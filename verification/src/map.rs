//! Maps: making entries by hand, and telling maps that are like structs
//! from maps with keys of any kind.
use vstd::prelude::*;
use vstd::utf8::encode_utf8;
use crate::fill::CafFill;
use crate::from_json::{field_entry, plain_map};
use crate::names::name_new;
use crate::value::{
    entries_view, lemma_entries_view, CafMap, CafMapEntry, CafMapKey, CafMapKeyValue, CafValue,
    KeyValueModel, MapEntryModel, MapKeyModel,
};

verus! {

impl CafMapKey {
    /// A field name without fill.
    pub fn field_name(name: &str) -> (r: Self)
        ensures
            r@ == (MapKeyModel::FieldName { fill: Seq::empty(), name: encode_utf8(name@) }),
    {
        CafMapKey::FieldName { fill: CafFill::new(), name: name_new(name) }
    }

    /// A key that is a value.
    pub fn value(value: CafValue) -> (r: Self)
        ensures
            r@ == MapKeyModel::Value(value@),
    {
        CafMapKey::Value(value)
    }

    /// Whether the key is a field name.
    pub fn is_struct_field(&self) -> (r: bool)
        ensures
            r == (self@ is FieldName),
    {
        match self {
            CafMapKey::FieldName { .. } => true,
            CafMapKey::Value(_) => false,
        }
    }
}

impl CafMapKeyValue {
    /// The entry `key: value` of a struct, without fill.
    pub fn struct_field(key: &str, value: CafValue) -> (r: Self)
        ensures
            MapEntryModel::KeyValue(r@) == field_entry(encode_utf8(key@), value@),
    {
        CafMapKeyValue {
            key: CafMapKey::field_name(key),
            semicolon_fill: CafFill::new(),
            value,
        }
    }

    /// The entry `key: value` of a map, without fill.
    pub fn map_entry(key: CafValue, value: CafValue) -> (r: Self)
        ensures
            r@ == (KeyValueModel {
                key: MapKeyModel::Value(key@),
                semicolon_fill: Seq::empty(),
                value: value@,
            }),
    {
        CafMapKeyValue { key: CafMapKey::value(key), semicolon_fill: CafFill::new(), value }
    }

    /// Whether the key is a field name.
    pub fn is_struct_field(&self) -> (r: bool)
        ensures
            r == (self@.key is FieldName),
    {
        self.key.is_struct_field()
    }
}

/// Whether an entry belongs in a struct: its key is a field name. A macro
/// parameter would have to be a catch-all, and none is.
pub open spec fn is_struct_entry(e: MapEntryModel) -> bool {
    match e {
        MapEntryModel::KeyValue(kv) => kv.key is FieldName,
        MapEntryModel::MacroParam => false,
    }
}

impl CafMapEntry {
    /// The entry `key: value` of a struct, without fill.
    pub fn struct_field(key: &str, value: CafValue) -> (r: Self)
        ensures
            r@ == field_entry(encode_utf8(key@), value@),
    {
        CafMapEntry::KeyValue(CafMapKeyValue::struct_field(key, value))
    }

    /// The entry `key: value` of a map, without fill.
    pub fn map_entry(key: CafValue, value: CafValue) -> (r: Self)
        ensures
            r@ == MapEntryModel::KeyValue(
                KeyValueModel {
                    key: MapKeyModel::Value(key@),
                    semicolon_fill: Seq::empty(),
                    value: value@,
                },
            ),
    {
        CafMapEntry::KeyValue(CafMapKeyValue::map_entry(key, value))
    }

    /// Whether the entry belongs in a struct.
    pub fn is_struct_field(&self) -> (r: bool)
        ensures
            r == is_struct_entry(self@),
    {
        match self {
            CafMapEntry::KeyValue(kv) => kv.is_struct_field(),
            CafMapEntry::MacroParam(param) => param.is_catch_all(),
        }
    }

    /// Whether the entry is a key with its value.
    pub fn is_keyvalue(&self) -> (r: bool)
        ensures
            r == (self@ is KeyValue),
    {
        match self {
            CafMapEntry::KeyValue(_) => true,
            CafMapEntry::MacroParam(_) => false,
        }
    }
}

impl vstd::std_specs::convert::FromSpecImpl<Vec<CafMapEntry>> for CafMap {
    open spec fn obeys_from_spec() -> bool {
        false
    }

    open spec fn from_spec(entries: Vec<CafMapEntry>) -> Self {
        arbitrary()
    }
}

impl From<Vec<CafMapEntry>> for CafMap {
    /// The map with these entries and no fill.
    fn from(entries: Vec<CafMapEntry>) -> (r: Self)
        ensures
            r@ == plain_map(entries_view(entries@)),
    {
        CafMap { start_fill: CafFill::new(), entries, end_fill: CafFill::new() }
    }
}

impl CafMap {
    /// Whether the map is like a struct: every entry has a field name for
    /// its key.
    pub fn is_structlike(&self) -> (r: bool)
        ensures
            r == (forall|i: int|
                0 <= i < self@.entries.len() ==> is_struct_entry(#[trigger] self@.entries[i])),
    {
        proof {
            lemma_entries_view(self.entries@);
        }
        let mut i: usize = 0;
        while i < self.entries.len()
            invariant
                0 <= i <= self.entries@.len(),
                self@.entries.len() == self.entries@.len(),
                forall|j: int|
                    0 <= j < self.entries@.len() ==> #[trigger] self@.entries[j]
                        == self.entries@[j]@,
                forall|j: int| 0 <= j < i ==> is_struct_entry(#[trigger] self@.entries[j]),
            decreases self.entries@.len() - i,
        {
            if !self.entries[i].is_struct_field() {
                proof {
                    assert(!is_struct_entry(self@.entries[i as int]));
                }
                return false;
            }
            i += 1;
        }
        true
    }
}

} // verus!
