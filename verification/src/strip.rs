//! A tree without its fill: what it holds, and nothing of how it was written.
use vstd::prelude::*;
use crate::value::{
    BoolModel, BuiltinModel, EnumVariantModel, IdentModel, KeyValueModel, ListModel,
    MapEntryModel, MapKeyModel, MapModel, NumberModel, StringModel, ValueModel,
};

verus! {

pub open spec fn ident_stripped(id: IdentModel) -> IdentModel {
    IdentModel { fill: Seq::empty(), name: id.name }
}

pub open spec fn builtin_stripped(b: BuiltinModel) -> BuiltinModel {
    match b {
        BuiltinModel::Color { fill, color } => BuiltinModel::Color { fill: Seq::empty(), color },
        BuiltinModel::Val { fill, number, val } => BuiltinModel::Val {
            fill: Seq::empty(),
            number,
            val,
        },
    }
}

/// The value without any fill: what it holds, and nothing of how it was written.
pub open spec fn value_stripped(v: ValueModel) -> ValueModel
    decreases v, 0int,
{
    match v {
        ValueModel::EnumVariant(e) => ValueModel::EnumVariant(variant_stripped(e)),
        ValueModel::Builtin(b) => ValueModel::Builtin(builtin_stripped(b)),
        ValueModel::Array(l) => ValueModel::Array(list_stripped(l)),
        ValueModel::Tuple(l) => ValueModel::Tuple(list_stripped(l)),
        ValueModel::Mapping(m) => ValueModel::Mapping(map_stripped(m)),
        ValueModel::Number(n) => ValueModel::Number(
            NumberModel { fill: Seq::empty(), number: n.number },
        ),
        ValueModel::Bool(b) => ValueModel::Bool(BoolModel { fill: Seq::empty(), value: b.value }),
        ValueModel::Nothing(fill) => ValueModel::Nothing(Seq::empty()),
        ValueModel::String(s) => ValueModel::String(
            StringModel { fill: Seq::empty(), raw: s.raw },
        ),
    }
}

pub open spec fn variant_stripped(e: EnumVariantModel) -> EnumVariantModel
    decreases e, 0int,
{
    match e {
        EnumVariantModel::Unit { id } => EnumVariantModel::Unit { id: ident_stripped(id) },
        EnumVariantModel::Tuple { id, tuple } => EnumVariantModel::Tuple {
            id: ident_stripped(id),
            tuple: list_stripped(tuple),
        },
        EnumVariantModel::Array { id, array } => EnumVariantModel::Array {
            id: ident_stripped(id),
            array: list_stripped(array),
        },
        EnumVariantModel::Mapping { id, map } => EnumVariantModel::Mapping {
            id: ident_stripped(id),
            map: map_stripped(map),
        },
    }
}

pub open spec fn list_stripped(l: ListModel) -> ListModel
    decreases l, 0int,
{
    ListModel {
        start_fill: Seq::empty(),
        entries: values_stripped(l.entries),
        end_fill: Seq::empty(),
    }
}

pub open spec fn values_stripped(vs: Seq<ValueModel>) -> Seq<ValueModel>
    decreases vs, 0int,
{
    if vs.len() == 0 {
        Seq::empty()
    } else {
        values_stripped(vs.drop_last()).push(value_stripped(vs.last()))
    }
}

pub open spec fn map_stripped(m: MapModel) -> MapModel
    decreases m, 0int,
{
    MapModel {
        start_fill: Seq::empty(),
        entries: entries_stripped(m.entries),
        end_fill: Seq::empty(),
    }
}

pub open spec fn entries_stripped(es: Seq<MapEntryModel>) -> Seq<MapEntryModel>
    decreases es, 0int,
{
    if es.len() == 0 {
        Seq::empty()
    } else {
        entries_stripped(es.drop_last()).push(entry_stripped(es.last()))
    }
}

pub open spec fn entry_stripped(e: MapEntryModel) -> MapEntryModel
    decreases e, 0int,
{
    match e {
        MapEntryModel::KeyValue(kv) => MapEntryModel::KeyValue(
            KeyValueModel {
                key: key_stripped(kv.key),
                semicolon_fill: Seq::empty(),
                value: value_stripped(kv.value),
            },
        ),
        MapEntryModel::MacroParam => MapEntryModel::MacroParam,
    }
}

pub open spec fn key_stripped(k: MapKeyModel) -> MapKeyModel
    decreases k, 0int,
{
    match k {
        MapKeyModel::FieldName { fill, name } => MapKeyModel::FieldName {
            fill: Seq::empty(),
            name,
        },
        MapKeyModel::Value(v) => MapKeyModel::Value(value_stripped(v)),
    }
}

/// `values_stripped` keeps the length and strips each value.
pub proof fn lemma_values_stripped(vs: Seq<ValueModel>)
    ensures
        values_stripped(vs).len() == vs.len(),
        forall|i: int| 0 <= i < vs.len() ==> #[trigger] values_stripped(vs)[i] == value_stripped(
            vs[i],
        ),
    decreases vs.len(),
{
    if vs.len() > 0 {
        lemma_values_stripped(vs.drop_last());
        assert(values_stripped(vs) == values_stripped(vs.drop_last()).push(
            value_stripped(vs.last()),
        ));
    } else {
        assert(values_stripped(vs) == Seq::<ValueModel>::empty());
    }
}

/// `entries_stripped` keeps the length and strips each entry.
pub proof fn lemma_entries_stripped(es: Seq<MapEntryModel>)
    ensures
        entries_stripped(es).len() == es.len(),
        forall|i: int|
            0 <= i < es.len() ==> #[trigger] entries_stripped(es)[i] == entry_stripped(es[i]),
    decreases es.len(),
{
    if es.len() > 0 {
        lemma_entries_stripped(es.drop_last());
        assert(entries_stripped(es) == entries_stripped(es.drop_last()).push(
            entry_stripped(es.last()),
        ));
    } else {
        assert(entries_stripped(es) == Seq::<MapEntryModel>::empty());
    }
}

} // verus!
