//! Copies of nodes. A copy stands for the same tree as the node it was made of.
use vstd::prelude::*;
use crate::bytes::copy_all;
use crate::value::{
    entries_view, lemma_entries_view, lemma_values_view, values_view, CafArray, CafBool,
    CafBuiltin, CafEnumVariant, CafEnumVariantIdentifier, CafHexColor, CafMap, CafMapEntry,
    CafMapKey, CafMapKeyValue, CafNone, CafNumber, CafNumberValue, CafString, CafTuple, CafValue, CobMacroParam,
};

verus! {

impl CafNumberValue {
    /// A copy of the number.
    pub fn duplicate(&self) -> (r: Self)
        ensures
            r@ == self@,
    {
        CafNumberValue {
            original: self.original.clone(),
            deserialized: self.deserialized.clone(),
        }
    }
}

impl CafNumber {
    pub fn duplicate(&self) -> (r: Self)
        ensures
            r@ == self@,
    {
        CafNumber { fill: self.fill.duplicate(), number: self.number.duplicate() }
    }
}

impl CafString {
    pub fn duplicate(&self) -> (r: Self)
        ensures
            r@ == self@,
    {
        CafString { fill: self.fill.duplicate(), raw: copy_all(self.raw.as_slice()) }
    }
}

impl CafBool {
    pub fn duplicate(&self) -> (r: Self)
        ensures
            r@ == self@,
    {
        CafBool { fill: self.fill.duplicate(), value: self.value }
    }
}

impl CafNone {
    pub fn duplicate(&self) -> (r: Self)
        ensures
            r@ == self@,
    {
        CafNone { fill: self.fill.duplicate() }
    }
}

impl CafEnumVariantIdentifier {
    pub fn duplicate(&self) -> (r: Self)
        ensures
            r@ == self@,
    {
        CafEnumVariantIdentifier { fill: self.fill.duplicate(), name: self.name.clone() }
    }
}

impl CafHexColor {
    pub fn duplicate(&self) -> (r: Self)
        ensures
            r@ == self@,
    {
        CafHexColor { fill: self.fill.duplicate(), color: self.color }
    }
}

impl CafBuiltin {
    pub fn duplicate(&self) -> (r: Self)
        ensures
            r@ == self@,
    {
        match self {
            CafBuiltin::Color(color) => CafBuiltin::Color(color.duplicate()),
            CafBuiltin::Val { fill, number, val } => CafBuiltin::Val {
                fill: fill.duplicate(),
                number: match number {
                    Some(n) => Some(n.duplicate()),
                    None => None,
                },
                val: *val,
            },
        }
    }
}

/// Copies the values of a list.
fn duplicate_values(vs: &Vec<CafValue>) -> (r: Vec<CafValue>)
    ensures
        values_view(r@) == values_view(vs@),
    decreases vs,
{
    let mut out: Vec<CafValue> = Vec::new();
    let mut i: usize = 0;
    while i < vs.len()
        invariant
            0 <= i <= vs@.len(),
            out@.len() == i,
            forall|j: int| 0 <= j < i ==> (#[trigger] out@[j])@ == vs@[j]@,
        decreases vs@.len() - i,
    {
        proof {
            assert(decreases_to!(*vs => vs[i as int]));
        }
        out.push(vs[i].duplicate());
        i += 1;
    }
    proof {
        lemma_values_view(out@);
        lemma_values_view(vs@);
        assert(values_view(out@) =~= values_view(vs@));
    }
    out
}

/// Copies the entries of a map.
fn duplicate_entries(es: &Vec<CafMapEntry>) -> (r: Vec<CafMapEntry>)
    ensures
        entries_view(r@) == entries_view(es@),
    decreases es,
{
    let mut out: Vec<CafMapEntry> = Vec::new();
    let mut i: usize = 0;
    while i < es.len()
        invariant
            0 <= i <= es@.len(),
            out@.len() == i,
            forall|j: int| 0 <= j < i ==> (#[trigger] out@[j])@ == es@[j]@,
        decreases es@.len() - i,
    {
        proof {
            assert(decreases_to!(*es => es[i as int]));
        }
        out.push(es[i].duplicate());
        i += 1;
    }
    proof {
        lemma_entries_view(out@);
        lemma_entries_view(es@);
        assert(entries_view(out@) =~= entries_view(es@));
    }
    out
}

impl CafArray {
    pub fn duplicate(&self) -> (r: Self)
        ensures
            r@ == self@,
        decreases self,
    {
        CafArray {
            start_fill: self.start_fill.duplicate(),
            entries: duplicate_values(&self.entries),
            end_fill: self.end_fill.duplicate(),
        }
    }
}

impl CafTuple {
    pub fn duplicate(&self) -> (r: Self)
        ensures
            r@ == self@,
        decreases self,
    {
        CafTuple {
            start_fill: self.start_fill.duplicate(),
            entries: duplicate_values(&self.entries),
            end_fill: self.end_fill.duplicate(),
        }
    }
}

impl CafMapKey {
    pub fn duplicate(&self) -> (r: Self)
        ensures
            r@ == self@,
        decreases self,
    {
        match self {
            CafMapKey::FieldName { fill, name } => CafMapKey::FieldName {
                fill: fill.duplicate(),
                name: name.clone(),
            },
            CafMapKey::Value(value) => CafMapKey::Value(value.duplicate()),
        }
    }
}

impl CafMapKeyValue {
    pub fn duplicate(&self) -> (r: Self)
        ensures
            r@ == self@,
        decreases self,
    {
        CafMapKeyValue {
            key: self.key.duplicate(),
            semicolon_fill: self.semicolon_fill.duplicate(),
            value: self.value.duplicate(),
        }
    }
}

impl CafMapEntry {
    pub fn duplicate(&self) -> (r: Self)
        ensures
            r@ == self@,
        decreases self,
    {
        match self {
            CafMapEntry::KeyValue(kv) => CafMapEntry::KeyValue(kv.duplicate()),
            CafMapEntry::MacroParam(_) => CafMapEntry::MacroParam(CobMacroParam),
        }
    }
}

impl CafMap {
    pub fn duplicate(&self) -> (r: Self)
        ensures
            r@ == self@,
        decreases self,
    {
        CafMap {
            start_fill: self.start_fill.duplicate(),
            entries: duplicate_entries(&self.entries),
            end_fill: self.end_fill.duplicate(),
        }
    }
}

impl CafEnumVariant {
    pub fn duplicate(&self) -> (r: Self)
        ensures
            r@ == self@,
        decreases self,
    {
        match self {
            CafEnumVariant::Unit { id } => CafEnumVariant::Unit { id: id.duplicate() },
            CafEnumVariant::Tuple { id, tuple } => CafEnumVariant::Tuple {
                id: id.duplicate(),
                tuple: tuple.duplicate(),
            },
            CafEnumVariant::Array { id, array } => CafEnumVariant::Array {
                id: id.duplicate(),
                array: array.duplicate(),
            },
            CafEnumVariant::Mapping { id, map } => CafEnumVariant::Mapping {
                id: id.duplicate(),
                map: map.duplicate(),
            },
        }
    }
}

impl CafValue {
    /// A copy of the value.
    pub fn duplicate(&self) -> (r: Self)
        ensures
            r@ == self@,
        decreases self,
    {
        match self {
            CafValue::EnumVariant(v) => CafValue::EnumVariant(v.duplicate()),
            CafValue::Builtin(v) => CafValue::Builtin(v.duplicate()),
            CafValue::Array(v) => CafValue::Array(v.duplicate()),
            CafValue::Tuple(v) => CafValue::Tuple(v.duplicate()),
            CafValue::Mapping(v) => CafValue::Mapping(v.duplicate()),
            CafValue::Number(v) => CafValue::Number(v.duplicate()),
            CafValue::Bool(v) => CafValue::Bool(v.duplicate()),
            CafValue::Nothing(v) => CafValue::Nothing(v.duplicate()),
            CafValue::String(v) => CafValue::String(v.duplicate()),
        }
    }
}

impl Clone for CafArray {
    fn clone(&self) -> (r: Self)
        ensures
            r@ == self@,
    {
        self.duplicate()
    }
}

impl Clone for CafTuple {
    fn clone(&self) -> (r: Self)
        ensures
            r@ == self@,
    {
        self.duplicate()
    }
}

impl Clone for CafMapKey {
    fn clone(&self) -> (r: Self)
        ensures
            r@ == self@,
    {
        self.duplicate()
    }
}

impl Clone for CafMapKeyValue {
    fn clone(&self) -> (r: Self)
        ensures
            r@ == self@,
    {
        self.duplicate()
    }
}

impl Clone for CafMapEntry {
    fn clone(&self) -> (r: Self)
        ensures
            r@ == self@,
    {
        self.duplicate()
    }
}

impl Clone for CafMap {
    fn clone(&self) -> (r: Self)
        ensures
            r@ == self@,
    {
        self.duplicate()
    }
}

impl Clone for CafEnumVariant {
    fn clone(&self) -> (r: Self)
        ensures
            r@ == self@,
    {
        self.duplicate()
    }
}

impl Clone for CafValue {
    fn clone(&self) -> (r: Self)
        ensures
            r@ == self@,
    {
        self.duplicate()
    }
}

} // verus!
