//! Comparing trees by what they hold, whatever their fill: two documents
//! that differ in formatting alone are the same to these functions.
use vstd::prelude::*;
use crate::json::same_text;
use crate::json_number::number_to_text;
use crate::names::{name_as_str, name_bytes};
use crate::strip::{
    builtin_stripped, entries_stripped, entry_stripped, ident_stripped, key_stripped,
    lemma_entries_stripped, lemma_values_stripped, list_stripped, map_stripped, value_stripped,
    values_stripped, variant_stripped,
};
use crate::value::{
    entries_view, lemma_entries_view, lemma_values_view, values_view, CafArray, CafBool, CafBuiltin,
    CafEnumVariant, CafEnumVariantIdentifier, CafHexColor, CafMap, CafMapEntry, CafMapKey,
    CafMapKeyValue, CafNone, CafNumber, CafNumberValue, CafString, CafTuple, CafValue,
};

verus! {

/// Whether two names hold the same text.
fn same_name(a: &smol_str::SmolStr, b: &smol_str::SmolStr) -> (r: bool)
    ensures
        r == (name_bytes(*a) == name_bytes(*b)),
{
    same_text(name_as_str(a), name_as_str(b))
}

/// Whether two byte strings are the same.
fn same_bytes(a: &[u8], b: &[u8]) -> (r: bool)
    ensures
        r == (a@ == b@),
{
    if a.len() != b.len() {
        return false;
    }
    let r = crate::bytes::starts_at(a, 0, b);
    proof {
        assert(a@.subrange(0, a@.len() as int) =~= a@);
    }
    r
}

impl CafNumberValue {
    /// Whether two numbers stood in the source alike and are the same number.
    pub fn same(&self, other: &Self) -> (r: bool)
        ensures
            r == (self@ == other@),
    {
        let a = number_to_text(&self.deserialized);
        let b = number_to_text(&other.deserialized);
        same_name(&self.original, &other.original) && same_text(a.as_str(), b.as_str())
    }
}

impl CafNumber {
    pub fn eq_ignore_whitespace(&self, other: &Self) -> (r: bool)
        ensures
            r == (self@.number == other@.number),
    {
        self.number.same(&other.number)
    }
}

impl CafString {
    pub fn eq_ignore_whitespace(&self, other: &Self) -> (r: bool)
        ensures
            r == (self@.raw == other@.raw),
    {
        same_bytes(self.raw.as_slice(), other.raw.as_slice())
    }
}

impl CafBool {
    pub fn eq_ignore_whitespace(&self, other: &Self) -> (r: bool)
        ensures
            r == (self@.value == other@.value),
    {
        self.value == other.value
    }
}

impl CafNone {
    /// Any two are the same.
    pub fn eq_ignore_whitespace(&self, other: &Self) -> (r: bool)
        ensures
            r,
    {
        true
    }
}

impl CafEnumVariantIdentifier {
    pub fn eq_ignore_whitespace(&self, other: &Self) -> (r: bool)
        ensures
            r == (ident_stripped(self@) == ident_stripped(other@)),
    {
        same_name(&self.name, &other.name)
    }
}

impl CafHexColor {
    pub fn eq_ignore_whitespace(&self, other: &Self) -> (r: bool)
        ensures
            r == (builtin_stripped(self@) == builtin_stripped(other@)),
    {
        self.color == other.color
    }
}

impl CafBuiltin {
    pub fn eq_ignore_whitespace(&self, other: &Self) -> (r: bool)
        ensures
            r == (builtin_stripped(self@) == builtin_stripped(other@)),
    {
        match (self, other) {
            (CafBuiltin::Color(a), CafBuiltin::Color(b)) => a.eq_ignore_whitespace(b),
            (
                CafBuiltin::Val { number: a, val: x, .. },
                CafBuiltin::Val { number: b, val: y, .. },
            ) => {
                let numbers = match (a, b) {
                    (Some(a), Some(b)) => a.same(b),
                    (None, None) => true,
                    _ => false,
                };
                numbers && *x == *y
            },
            _ => false,
        }
    }
}

/// Whether two lists hold the same values, in order.
fn same_values(a: &Vec<CafValue>, b: &Vec<CafValue>) -> (r: bool)
    ensures
        r == (values_stripped(values_view(a@)) == values_stripped(values_view(b@))),
    decreases a,
{
    let ghost x = values_view(a@);
    let ghost y = values_view(b@);
    proof {
        lemma_values_view(a@);
        lemma_values_view(b@);
        lemma_values_stripped(x);
        lemma_values_stripped(y);
    }
    if a.len() != b.len() {
        return false;
    }
    let mut i: usize = 0;
    while i < a.len()
        invariant
            0 <= i <= a@.len(),
            a@.len() == b@.len(),
            x == values_view(a@),
            y == values_view(b@),
            x.len() == a@.len(),
            y.len() == b@.len(),
            forall|j: int| 0 <= j < a@.len() ==> #[trigger] x[j] == a@[j]@,
            forall|j: int| 0 <= j < b@.len() ==> #[trigger] y[j] == b@[j]@,
            values_stripped(x).len() == x.len(),
            values_stripped(y).len() == y.len(),
            forall|j: int|
                0 <= j < x.len() ==> #[trigger] values_stripped(x)[j] == value_stripped(x[j]),
            forall|j: int|
                0 <= j < y.len() ==> #[trigger] values_stripped(y)[j] == value_stripped(y[j]),
            forall|j: int| 0 <= j < i ==> value_stripped(#[trigger] x[j]) == value_stripped(y[j]),
        decreases a@.len() - i,
    {
        proof {
            assert(decreases_to!(*a => a[i as int]));
        }
        if !a[i].eq_ignore_whitespace(&b[i]) {
            proof {
                assert(values_stripped(x)[i as int] != values_stripped(y)[i as int]);
            }
            return false;
        }
        i += 1;
    }
    proof {
        assert(values_stripped(x) =~= values_stripped(y));
    }
    true
}

/// Whether two maps hold the same entries, in order.
fn same_entries(a: &Vec<CafMapEntry>, b: &Vec<CafMapEntry>) -> (r: bool)
    ensures
        r == (entries_stripped(entries_view(a@)) == entries_stripped(entries_view(b@))),
    decreases a,
{
    let ghost x = entries_view(a@);
    let ghost y = entries_view(b@);
    proof {
        lemma_entries_view(a@);
        lemma_entries_view(b@);
        lemma_entries_stripped(x);
        lemma_entries_stripped(y);
    }
    if a.len() != b.len() {
        return false;
    }
    let mut i: usize = 0;
    while i < a.len()
        invariant
            0 <= i <= a@.len(),
            a@.len() == b@.len(),
            x == entries_view(a@),
            y == entries_view(b@),
            x.len() == a@.len(),
            y.len() == b@.len(),
            forall|j: int| 0 <= j < a@.len() ==> #[trigger] x[j] == a@[j]@,
            forall|j: int| 0 <= j < b@.len() ==> #[trigger] y[j] == b@[j]@,
            entries_stripped(x).len() == x.len(),
            entries_stripped(y).len() == y.len(),
            forall|j: int|
                0 <= j < x.len() ==> #[trigger] entries_stripped(x)[j] == entry_stripped(x[j]),
            forall|j: int|
                0 <= j < y.len() ==> #[trigger] entries_stripped(y)[j] == entry_stripped(y[j]),
            forall|j: int| 0 <= j < i ==> entry_stripped(#[trigger] x[j]) == entry_stripped(y[j]),
        decreases a@.len() - i,
    {
        proof {
            assert(decreases_to!(*a => a[i as int]));
        }
        if !a[i].eq_ignore_whitespace(&b[i]) {
            proof {
                assert(entries_stripped(x)[i as int] != entries_stripped(y)[i as int]);
            }
            return false;
        }
        i += 1;
    }
    proof {
        assert(entries_stripped(x) =~= entries_stripped(y));
    }
    true
}

impl CafArray {
    pub fn eq_ignore_whitespace(&self, other: &Self) -> (r: bool)
        ensures
            r == (list_stripped(self@) == list_stripped(other@)),
        decreases self,
    {
        same_values(&self.entries, &other.entries)
    }
}

impl CafTuple {
    pub fn eq_ignore_whitespace(&self, other: &Self) -> (r: bool)
        ensures
            r == (list_stripped(self@) == list_stripped(other@)),
        decreases self,
    {
        same_values(&self.entries, &other.entries)
    }
}

impl CafMapKey {
    pub fn eq_ignore_whitespace(&self, other: &Self) -> (r: bool)
        ensures
            r == (key_stripped(self@) == key_stripped(other@)),
        decreases self,
    {
        match (self, other) {
            (CafMapKey::FieldName { name: a, .. }, CafMapKey::FieldName { name: b, .. }) => {
                same_name(a, b)
            },
            (CafMapKey::Value(a), CafMapKey::Value(b)) => a.eq_ignore_whitespace(b),
            _ => false,
        }
    }
}

impl CafMapKeyValue {
    pub fn eq_ignore_whitespace(&self, other: &Self) -> (r: bool)
        ensures
            r == (key_stripped(self@.key) == key_stripped(other@.key) && value_stripped(
                self@.value,
            ) == value_stripped(other@.value)),
        decreases self,
    {
        self.key.eq_ignore_whitespace(&other.key) && self.value.eq_ignore_whitespace(&other.value)
    }
}

impl CafMapEntry {
    pub fn eq_ignore_whitespace(&self, other: &Self) -> (r: bool)
        ensures
            r == (entry_stripped(self@) == entry_stripped(other@)),
        decreases self,
    {
        match (self, other) {
            (CafMapEntry::KeyValue(a), CafMapEntry::KeyValue(b)) => a.eq_ignore_whitespace(b),
            (CafMapEntry::MacroParam(_), CafMapEntry::MacroParam(_)) => true,
            _ => false,
        }
    }
}

impl CafMap {
    pub fn eq_ignore_whitespace(&self, other: &Self) -> (r: bool)
        ensures
            r == (map_stripped(self@) == map_stripped(other@)),
        decreases self,
    {
        same_entries(&self.entries, &other.entries)
    }
}

impl CafEnumVariant {
    pub fn eq_ignore_whitespace(&self, other: &Self) -> (r: bool)
        ensures
            r == (variant_stripped(self@) == variant_stripped(other@)),
        decreases self,
    {
        match (self, other) {
            (CafEnumVariant::Unit { id: a }, CafEnumVariant::Unit { id: b }) => {
                a.eq_ignore_whitespace(b)
            },
            (
                CafEnumVariant::Tuple { id: a, tuple: x },
                CafEnumVariant::Tuple { id: b, tuple: y },
            ) => a.eq_ignore_whitespace(b) && x.eq_ignore_whitespace(y),
            (
                CafEnumVariant::Array { id: a, array: x },
                CafEnumVariant::Array { id: b, array: y },
            ) => a.eq_ignore_whitespace(b) && x.eq_ignore_whitespace(y),
            (
                CafEnumVariant::Mapping { id: a, map: x },
                CafEnumVariant::Mapping { id: b, map: y },
            ) => a.eq_ignore_whitespace(b) && x.eq_ignore_whitespace(y),
            _ => false,
        }
    }
}

impl CafValue {
    /// Whether two values hold the same, whatever their fill.
    pub fn eq_ignore_whitespace(&self, other: &Self) -> (r: bool)
        ensures
            r == (value_stripped(self@) == value_stripped(other@)),
        decreases self,
    {
        match (self, other) {
            (CafValue::EnumVariant(a), CafValue::EnumVariant(b)) => a.eq_ignore_whitespace(b),
            (CafValue::Builtin(a), CafValue::Builtin(b)) => a.eq_ignore_whitespace(b),
            (CafValue::Array(a), CafValue::Array(b)) => a.eq_ignore_whitespace(b),
            (CafValue::Tuple(a), CafValue::Tuple(b)) => a.eq_ignore_whitespace(b),
            (CafValue::Mapping(a), CafValue::Mapping(b)) => a.eq_ignore_whitespace(b),
            (CafValue::Number(a), CafValue::Number(b)) => a.eq_ignore_whitespace(b),
            (CafValue::Bool(a), CafValue::Bool(b)) => a.eq_ignore_whitespace(b),
            (CafValue::Nothing(a), CafValue::Nothing(b)) => a.eq_ignore_whitespace(b),
            (CafValue::String(a), CafValue::String(b)) => a.eq_ignore_whitespace(b),
            _ => false,
        }
    }
}

} // verus!
