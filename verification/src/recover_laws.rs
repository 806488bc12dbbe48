//! What fill recovery gives: a node that holds what another holds, whatever
//! its own fill, becomes that other node.
use vstd::prelude::*;
use crate::recover::{
    entries_recovered, entry_recovered, lemma_entries_recovered, lemma_values_recovered,
    list_recovered, map_recovered, value_recovered, values_recovered, variant_recovered,
};
use crate::strip::{
    entries_stripped, entry_stripped, lemma_entries_stripped, lemma_values_stripped,
    list_stripped, map_stripped, value_stripped, values_stripped, variant_stripped,
};
use crate::value::{EnumVariantModel, ListModel, MapEntryModel, MapKeyModel, MapModel, ValueModel};

verus! {

/// A value that holds what `old` holds becomes `old` when it recovers the
/// fill of `old`.
pub proof fn lemma_value_recovers(new: ValueModel, old: ValueModel)
    requires
        value_stripped(new) == value_stripped(old),
    ensures
        value_recovered(new, old) == old,
    decreases new, 0int,
{
    match (new, old) {
        (ValueModel::EnumVariant(a), ValueModel::EnumVariant(b)) => {
            lemma_variant_recovers(a, b);
        },
        (ValueModel::Array(a), ValueModel::Array(b)) => {
            lemma_list_recovers(a, b);
        },
        (ValueModel::Tuple(a), ValueModel::Tuple(b)) => {
            lemma_list_recovers(a, b);
        },
        (ValueModel::Mapping(a), ValueModel::Mapping(b)) => {
            lemma_map_recovers(a, b);
        },
        _ => {},
    }
}

pub proof fn lemma_variant_recovers(new: EnumVariantModel, old: EnumVariantModel)
    requires
        variant_stripped(new) == variant_stripped(old),
    ensures
        variant_recovered(new, old) == old,
    decreases new, 0int,
{
    match (new, old) {
        (
            EnumVariantModel::Tuple { id, tuple },
            EnumVariantModel::Tuple { id: kept, tuple: other },
        ) => {
            lemma_list_recovers(tuple, other);
        },
        (
            EnumVariantModel::Array { id, array },
            EnumVariantModel::Array { id: kept, array: other },
        ) => {
            lemma_list_recovers(array, other);
        },
        (
            EnumVariantModel::Mapping { id, map },
            EnumVariantModel::Mapping { id: kept, map: other },
        ) => {
            lemma_map_recovers(map, other);
        },
        _ => {},
    }
}

pub proof fn lemma_list_recovers(new: ListModel, old: ListModel)
    requires
        list_stripped(new) == list_stripped(old),
    ensures
        list_recovered(new, old) == old,
    decreases new, 0int,
{
    lemma_values_stripped(new.entries);
    lemma_values_stripped(old.entries);
    lemma_values_recovered(new.entries, old.entries);
    assert forall|i: int| 0 <= i < new.entries.len() implies values_recovered(
        new.entries,
        old.entries,
    )[i] == old.entries[i] by {
        assert(values_stripped(new.entries)[i] == values_stripped(old.entries)[i]);
        lemma_value_recovers(new.entries[i], old.entries[i]);
    }
    assert(values_recovered(new.entries, old.entries) =~= old.entries);
}

pub proof fn lemma_map_recovers(new: MapModel, old: MapModel)
    requires
        map_stripped(new) == map_stripped(old),
    ensures
        map_recovered(new, old) == old,
    decreases new, 0int,
{
    lemma_entries_stripped(new.entries);
    lemma_entries_stripped(old.entries);
    lemma_entries_recovered(new.entries, old.entries);
    assert forall|i: int| 0 <= i < new.entries.len() implies entries_recovered(
        new.entries,
        old.entries,
    )[i] == old.entries[i] by {
        assert(entries_stripped(new.entries)[i] == entries_stripped(old.entries)[i]);
        lemma_entry_recovers(new.entries[i], old.entries[i]);
    }
    assert(entries_recovered(new.entries, old.entries) =~= old.entries);
}

pub proof fn lemma_entry_recovers(new: MapEntryModel, old: MapEntryModel)
    requires
        entry_stripped(new) == entry_stripped(old),
    ensures
        entry_recovered(new, old) == old,
    decreases new, 0int,
{
    match (new, old) {
        (MapEntryModel::KeyValue(a), MapEntryModel::KeyValue(b)) => {
            lemma_value_recovers(a.value, b.value);
            match (a.key, b.key) {
                (MapKeyModel::Value(x), MapKeyModel::Value(y)) => {
                    lemma_value_recovers(x, y);
                },
                _ => {},
            }
        },
        _ => {},
    }
}

} // verus!
