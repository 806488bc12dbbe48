//! Fill recovery: a node that was made without formatting takes over the
//! fill of a node of the same shape.
//!
//! The two trees are walked together. Where the nodes are of the same kind,
//! the new node gets the old node's fill and their children are paired by
//! position; where they are not, the new node stays as it is.
use vstd::prelude::*;
use crate::value::{
    entries_view, lemma_entries_view, lemma_values_view, values_view, BoolModel, BuiltinModel,
    CafArray, CafBool, CafBuiltin, CafEnumVariant, CafEnumVariantIdentifier, CafHexColor, CafMap,
    CafMapEntry, CafMapKey, CafMapKeyValue, CafNone, CafNumber, CafString, CafTuple, CafValue,
    EnumVariantModel, Fill, IdentModel, KeyValueModel, ListModel, MapEntryModel, MapKeyModel,
    MapModel, NumberModel, StringModel, ValueModel,
};

verus! {

pub open spec fn ident_recovered(new: IdentModel, old: IdentModel) -> IdentModel {
    IdentModel { fill: old.fill, name: new.name }
}

pub open spec fn builtin_recovered(new: BuiltinModel, old: BuiltinModel) -> BuiltinModel {
    match (new, old) {
        (BuiltinModel::Color { fill, color }, BuiltinModel::Color { fill: kept, color: _ }) => {
            BuiltinModel::Color { fill: kept, color }
        },
        (
            BuiltinModel::Val { fill, number, val },
            BuiltinModel::Val { fill: kept, number: _, val: _ },
        ) => BuiltinModel::Val { fill: kept, number, val },
        _ => new,
    }
}

/// The value `new` with the fill of `old`, as far as their shapes agree.
pub open spec fn value_recovered(new: ValueModel, old: ValueModel) -> ValueModel
    decreases new, 0int,
{
    match (new, old) {
        (ValueModel::EnumVariant(a), ValueModel::EnumVariant(b)) => ValueModel::EnumVariant(
            variant_recovered(a, b),
        ),
        (ValueModel::Builtin(a), ValueModel::Builtin(b)) => ValueModel::Builtin(
            builtin_recovered(a, b),
        ),
        (ValueModel::Array(a), ValueModel::Array(b)) => ValueModel::Array(list_recovered(a, b)),
        (ValueModel::Tuple(a), ValueModel::Tuple(b)) => ValueModel::Tuple(list_recovered(a, b)),
        (ValueModel::Mapping(a), ValueModel::Mapping(b)) => ValueModel::Mapping(
            map_recovered(a, b),
        ),
        (ValueModel::Number(a), ValueModel::Number(b)) => ValueModel::Number(
            NumberModel { fill: b.fill, number: a.number },
        ),
        (ValueModel::Bool(a), ValueModel::Bool(b)) => ValueModel::Bool(
            BoolModel { fill: b.fill, value: a.value },
        ),
        (ValueModel::Nothing(a), ValueModel::Nothing(b)) => ValueModel::Nothing(b),
        (ValueModel::String(a), ValueModel::String(b)) => ValueModel::String(
            StringModel { fill: b.fill, raw: a.raw },
        ),
        _ => new,
    }
}

pub open spec fn variant_recovered(new: EnumVariantModel, old: EnumVariantModel)
    -> EnumVariantModel
    decreases new, 0int,
{
    match (new, old) {
        (EnumVariantModel::Unit { id }, EnumVariantModel::Unit { id: kept }) => {
            EnumVariantModel::Unit { id: ident_recovered(id, kept) }
        },
        (
            EnumVariantModel::Tuple { id, tuple },
            EnumVariantModel::Tuple { id: kept, tuple: other },
        ) => EnumVariantModel::Tuple {
            id: ident_recovered(id, kept),
            tuple: list_recovered(tuple, other),
        },
        (
            EnumVariantModel::Array { id, array },
            EnumVariantModel::Array { id: kept, array: other },
        ) => EnumVariantModel::Array {
            id: ident_recovered(id, kept),
            array: list_recovered(array, other),
        },
        (
            EnumVariantModel::Mapping { id, map },
            EnumVariantModel::Mapping { id: kept, map: other },
        ) => EnumVariantModel::Mapping {
            id: ident_recovered(id, kept),
            map: map_recovered(map, other),
        },
        _ => new,
    }
}

pub open spec fn list_recovered(new: ListModel, old: ListModel) -> ListModel
    decreases new, 0int,
{
    ListModel {
        start_fill: old.start_fill,
        entries: values_recovered(new.entries, old.entries),
        end_fill: old.end_fill,
    }
}

/// The values `new`, each with the fill of the value of `old` at its
/// position. Values beyond the end of `old` stay as they are.
pub open spec fn values_recovered(new: Seq<ValueModel>, old: Seq<ValueModel>) -> Seq<ValueModel>
    decreases new, 0int,
{
    if new.len() == 0 {
        Seq::empty()
    } else {
        values_recovered(new.drop_last(), old).push(
            if new.len() <= old.len() {
                value_recovered(new.last(), old[new.len() - 1])
            } else {
                new.last()
            },
        )
    }
}

pub open spec fn map_recovered(new: MapModel, old: MapModel) -> MapModel
    decreases new, 0int,
{
    MapModel {
        start_fill: old.start_fill,
        entries: entries_recovered(new.entries, old.entries),
        end_fill: old.end_fill,
    }
}

/// The entries `new`, each with the fill of the entry of `old` at its position.
pub open spec fn entries_recovered(new: Seq<MapEntryModel>, old: Seq<MapEntryModel>) -> Seq<
    MapEntryModel,
>
    decreases new, 0int,
{
    if new.len() == 0 {
        Seq::empty()
    } else {
        entries_recovered(new.drop_last(), old).push(
            if new.len() <= old.len() {
                entry_recovered(new.last(), old[new.len() - 1])
            } else {
                new.last()
            },
        )
    }
}

pub open spec fn entry_recovered(new: MapEntryModel, old: MapEntryModel) -> MapEntryModel
    decreases new, 0int,
{
    match (new, old) {
        (MapEntryModel::KeyValue(a), MapEntryModel::KeyValue(b)) => MapEntryModel::KeyValue(
            key_value_recovered(a, b),
        ),
        _ => new,
    }
}

pub open spec fn key_value_recovered(new: KeyValueModel, old: KeyValueModel) -> KeyValueModel
    decreases new, 0int,
{
    KeyValueModel {
        key: key_recovered(new.key, old.key),
        semicolon_fill: old.semicolon_fill,
        value: value_recovered(new.value, old.value),
    }
}

pub open spec fn key_recovered(new: MapKeyModel, old: MapKeyModel) -> MapKeyModel
    decreases new, 0int,
{
    match (new, old) {
        (MapKeyModel::FieldName { fill, name }, MapKeyModel::FieldName { fill: kept, name: _ }) => {
            MapKeyModel::FieldName { fill: kept, name }
        },
        (MapKeyModel::Value(a), MapKeyModel::Value(b)) => MapKeyModel::Value(
            value_recovered(a, b),
        ),
        _ => new,
    }
}

/// `values_recovered` keeps the length and pairs the values by position.
pub proof fn lemma_values_recovered(new: Seq<ValueModel>, old: Seq<ValueModel>)
    ensures
        values_recovered(new, old).len() == new.len(),
        forall|i: int|
            0 <= i < new.len() ==> #[trigger] values_recovered(new, old)[i] == if i < old.len() {
                value_recovered(new[i], old[i])
            } else {
                new[i]
            },
    decreases new.len(),
{
    if new.len() > 0 {
        lemma_values_recovered(new.drop_last(), old);
        assert(values_recovered(new, old) == values_recovered(new.drop_last(), old).push(
            if new.len() <= old.len() {
                value_recovered(new.last(), old[new.len() - 1])
            } else {
                new.last()
            },
        ));
    } else {
        assert(values_recovered(new, old) == Seq::<ValueModel>::empty());
    }
}

/// `entries_recovered` keeps the length and pairs the entries by position.
pub proof fn lemma_entries_recovered(new: Seq<MapEntryModel>, old: Seq<MapEntryModel>)
    ensures
        entries_recovered(new, old).len() == new.len(),
        forall|i: int|
            0 <= i < new.len() ==> #[trigger] entries_recovered(new, old)[i] == if i < old.len() {
                entry_recovered(new[i], old[i])
            } else {
                new[i]
            },
    decreases new.len(),
{
    if new.len() > 0 {
        lemma_entries_recovered(new.drop_last(), old);
        assert(entries_recovered(new, old) == entries_recovered(new.drop_last(), old).push(
            if new.len() <= old.len() {
                entry_recovered(new.last(), old[new.len() - 1])
            } else {
                new.last()
            },
        ));
    } else {
        assert(entries_recovered(new, old) == Seq::<MapEntryModel>::empty());
    }
}

impl CafNumber {
    pub fn recover_fill(&mut self, other: &Self)
        ensures
            final(self)@ == (NumberModel { fill: other@.fill, number: old(self)@.number }),
    {
        self.fill.recover(&other.fill);
    }
}

impl CafString {
    pub fn recover_fill(&mut self, other: &Self)
        ensures
            final(self)@ == (StringModel { fill: other@.fill, raw: old(self)@.raw }),
    {
        self.fill.recover(&other.fill);
    }
}

impl CafBool {
    pub fn recover_fill(&mut self, other: &Self)
        ensures
            final(self)@ == (BoolModel { fill: other@.fill, value: old(self)@.value }),
    {
        self.fill.recover(&other.fill);
    }
}

impl CafNone {
    /// Takes over the fill of `other`.
    pub fn recover_fill(&mut self, other: &Self)
        ensures
            final(self)@ == other@,
    {
        self.fill.recover(&other.fill);
    }
}

impl CafEnumVariantIdentifier {
    /// Takes over the fill of `other` and keeps the name.
    pub fn recover_fill(&mut self, other: &Self)
        ensures
            final(self)@ == ident_recovered(old(self)@, other@),
    {
        self.fill.recover(&other.fill);
    }
}

impl CafHexColor {
    pub fn recover_fill(&mut self, other: &Self)
        ensures
            final(self)@ == builtin_recovered(old(self)@, other@),
    {
        self.fill.recover(&other.fill);
    }
}

impl CafBuiltin {
    pub fn recover_fill(&mut self, other: &Self)
        ensures
            final(self)@ == builtin_recovered(old(self)@, other@),
    {
        match (self, other) {
            (CafBuiltin::Color(color), CafBuiltin::Color(other_color)) => {
                color.recover_fill(other_color);
            },
            (CafBuiltin::Val { fill, .. }, CafBuiltin::Val { fill: other_fill, .. }) => {
                fill.recover(other_fill);
            },
            _ => (),
        }
    }
}

/// Pairs the values of two lists by position and recovers each.
fn recover_values(entries: &mut Vec<CafValue>, other: &Vec<CafValue>)
    ensures
        values_view(final(entries)@) == values_recovered(
            values_view(old(entries)@),
            values_view(other@),
        ),
    decreases *old(entries),
{
    let ghost new = values_view(entries@);
    let ghost kept = values_view(other@);
    proof {
        lemma_values_view(entries@);
        lemma_values_view(other@);
    }
    let mut i: usize = 0;
    while i < entries.len() && i < other.len()
        invariant
            0 <= i <= entries@.len(),
            i <= other@.len(),
            entries@.len() == old(entries)@.len(),
            new == values_view(old(entries)@),
            kept == values_view(other@),
            new.len() == entries@.len(),
            kept.len() == other@.len(),
            forall|j: int| 0 <= j < other@.len() ==> #[trigger] kept[j] == other@[j]@,
            forall|j: int| 0 <= j < entries@.len() ==> #[trigger] new[j] == old(entries)@[j]@,
            forall|j: int| i <= j < entries@.len() ==> #[trigger] entries@[j] == old(entries)@[j],
            forall|j: int|
                0 <= j < i ==> (#[trigger] entries@[j])@ == value_recovered(new[j], kept[j]),
        decreases entries@.len() - i,
    {
        proof {
            assert(decreases_to!(*old(entries) => old(entries)@[i as int]));
        }
        entries[i].recover_fill(&other[i]);
        i += 1;
    }
    proof {
        lemma_values_view(entries@);
        lemma_values_recovered(new, kept);
        assert forall|j: int| 0 <= j < entries@.len() implies values_view(entries@)[j]
            == values_recovered(new, kept)[j] by {
            if j >= i {
                assert(entries@[j] == old(entries)@[j]);
                assert(new[j] == old(entries)@[j]@);
            } else {
                assert(entries@[j]@ == value_recovered(new[j], kept[j]));
            }
        }
        assert(values_view(entries@) =~= values_recovered(new, kept));
    }
}

/// Pairs the entries of two maps by position and recovers each.
fn recover_entries(entries: &mut Vec<CafMapEntry>, other: &Vec<CafMapEntry>)
    ensures
        entries_view(final(entries)@) == entries_recovered(
            entries_view(old(entries)@),
            entries_view(other@),
        ),
    decreases *old(entries),
{
    let ghost new = entries_view(entries@);
    let ghost kept = entries_view(other@);
    proof {
        lemma_entries_view(entries@);
        lemma_entries_view(other@);
    }
    let mut i: usize = 0;
    while i < entries.len() && i < other.len()
        invariant
            0 <= i <= entries@.len(),
            i <= other@.len(),
            entries@.len() == old(entries)@.len(),
            new == entries_view(old(entries)@),
            kept == entries_view(other@),
            new.len() == entries@.len(),
            kept.len() == other@.len(),
            forall|j: int| 0 <= j < other@.len() ==> #[trigger] kept[j] == other@[j]@,
            forall|j: int| 0 <= j < entries@.len() ==> #[trigger] new[j] == old(entries)@[j]@,
            forall|j: int| i <= j < entries@.len() ==> #[trigger] entries@[j] == old(entries)@[j],
            forall|j: int|
                0 <= j < i ==> (#[trigger] entries@[j])@ == entry_recovered(new[j], kept[j]),
        decreases entries@.len() - i,
    {
        proof {
            assert(decreases_to!(*old(entries) => old(entries)@[i as int]));
        }
        entries[i].recover_fill(&other[i]);
        i += 1;
    }
    proof {
        lemma_entries_view(entries@);
        lemma_entries_recovered(new, kept);
        assert forall|j: int| 0 <= j < entries@.len() implies entries_view(entries@)[j]
            == entries_recovered(new, kept)[j] by {
            if j >= i {
                assert(entries@[j] == old(entries)@[j]);
                assert(new[j] == old(entries)@[j]@);
            } else {
                assert(entries@[j]@ == entry_recovered(new[j], kept[j]));
            }
        }
        assert(entries_view(entries@) =~= entries_recovered(new, kept));
    }
}

impl CafArray {
    pub fn recover_fill(&mut self, other: &Self)
        ensures
            final(self)@ == list_recovered(old(self)@, other@),
        decreases *old(self),
    {
        self.start_fill.recover(&other.start_fill);
        recover_values(&mut self.entries, &other.entries);
        self.end_fill.recover(&other.end_fill);
    }
}

impl CafTuple {
    pub fn recover_fill(&mut self, other: &Self)
        ensures
            final(self)@ == list_recovered(old(self)@, other@),
        decreases *old(self),
    {
        self.start_fill.recover(&other.start_fill);
        recover_values(&mut self.entries, &other.entries);
        self.end_fill.recover(&other.end_fill);
    }
}

impl CafMapKey {
    pub fn recover_fill(&mut self, other: &Self)
        ensures
            final(self)@ == key_recovered(old(self)@, other@),
        decreases *old(self),
    {
        match (self, other) {
            (CafMapKey::FieldName { fill, .. }, CafMapKey::FieldName { fill: other_fill, .. }) => {
                fill.recover(other_fill);
            },
            (CafMapKey::Value(value), CafMapKey::Value(other_value)) => {
                value.recover_fill(other_value);
            },
            _ => (),
        }
    }
}

impl CafMapKeyValue {
    pub fn recover_fill(&mut self, other: &Self)
        ensures
            final(self)@ == key_value_recovered(old(self)@, other@),
        decreases *old(self),
    {
        self.key.recover_fill(&other.key);
        self.semicolon_fill.recover(&other.semicolon_fill);
        self.value.recover_fill(&other.value);
    }
}

impl CafMapEntry {
    pub fn recover_fill(&mut self, other: &Self)
        ensures
            final(self)@ == entry_recovered(old(self)@, other@),
        decreases *old(self),
    {
        match (self, other) {
            (CafMapEntry::KeyValue(keyvalue), CafMapEntry::KeyValue(other_keyvalue)) => {
                keyvalue.recover_fill(other_keyvalue);
            },
            (CafMapEntry::MacroParam(param), CafMapEntry::MacroParam(other_param)) => {
                param.recover_fill(other_param);
            },
            _ => (),
        }
    }
}

impl CafMap {
    pub fn recover_fill(&mut self, other: &Self)
        ensures
            final(self)@ == map_recovered(old(self)@, other@),
        decreases *old(self),
    {
        self.start_fill.recover(&other.start_fill);
        recover_entries(&mut self.entries, &other.entries);
        self.end_fill.recover(&other.end_fill);
    }
}

impl CafEnumVariant {
    pub fn recover_fill(&mut self, other: &Self)
        ensures
            final(self)@ == variant_recovered(old(self)@, other@),
        decreases *old(self),
    {
        match (self, other) {
            (CafEnumVariant::Unit { id }, CafEnumVariant::Unit { id: other_id }) => {
                id.recover_fill(other_id);
            },
            (
                CafEnumVariant::Tuple { id, tuple },
                CafEnumVariant::Tuple { id: other_id, tuple: other_tuple },
            ) => {
                id.recover_fill(other_id);
                tuple.recover_fill(other_tuple);
            },
            (
                CafEnumVariant::Array { id, array },
                CafEnumVariant::Array { id: other_id, array: other_array },
            ) => {
                id.recover_fill(other_id);
                array.recover_fill(other_array);
            },
            (
                CafEnumVariant::Mapping { id, map },
                CafEnumVariant::Mapping { id: other_id, map: other_map },
            ) => {
                id.recover_fill(other_id);
                map.recover_fill(other_map);
            },
            _ => (),
        }
    }
}

impl CafValue {
    /// Takes over the fill of `other`, as far as the shapes of the two values agree.
    pub fn recover_fill(&mut self, other: &Self)
        ensures
            final(self)@ == value_recovered(old(self)@, other@),
        decreases *old(self),
    {
        match (self, other) {
            (CafValue::EnumVariant(v), CafValue::EnumVariant(o)) => v.recover_fill(o),
            (CafValue::Builtin(v), CafValue::Builtin(o)) => v.recover_fill(o),
            (CafValue::Array(v), CafValue::Array(o)) => v.recover_fill(o),
            (CafValue::Tuple(v), CafValue::Tuple(o)) => v.recover_fill(o),
            (CafValue::Mapping(v), CafValue::Mapping(o)) => v.recover_fill(o),
            (CafValue::Number(v), CafValue::Number(o)) => v.recover_fill(o),
            (CafValue::Bool(v), CafValue::Bool(o)) => v.recover_fill(o),
            (CafValue::Nothing(v), CafValue::Nothing(o)) => v.recover_fill(o),
            (CafValue::String(v), CafValue::String(o)) => v.recover_fill(o),
            _ => (),
        }
    }
}

} // verus!
