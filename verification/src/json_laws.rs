//! What holds of the two conversions together: a tree that was made from
//! JSON gives that JSON back.
use vstd::prelude::*;
use vstd::utf8::valid_utf8;
use crate::from_json::{
    first_type, is_list, items_from_json, list_from_json, map_from_json, members_from_json,
    option_field, plain_ident, plain_list, rest_types, value_from_json, variant_from_json,
    ItemTypes, JsonError, MemberTypes,
};
use crate::json::{object_find, object_of, CafError, JsonModel};
use crate::registry::{
    field_index, variant_index, ScalarKind, TypeRegistry, TypeShape, VariantKind, VariantShape,
};
use crate::scan::lemma_unescape_escaped;
use crate::to_json::{
    entries_json, entry_json, list_json, map_json, value_json, values_json, variant_json,
};
use crate::value::{EnumVariantModel, IdentModel, ListModel, ValueModel};

verus! {

/// Whether no key of `members` stands among `seen` or twice among `members`.
pub open spec fn keys_fresh(members: Seq<(Seq<u8>, JsonModel)>, seen: Seq<(Seq<u8>, JsonModel)>)
    -> bool
    decreases members.len(),
{
    if members.len() == 0 {
        true
    } else {
        object_find(seen, members[0].0, 0) is None && keys_fresh(
            members.drop_first(),
            seen.push(members[0]),
        )
    }
}

/// Whether a JSON value is well formed: its texts are UTF-8 and no object
/// has a key twice.
pub open spec fn json_wf(j: JsonModel) -> bool
    decreases j,
{
    match j {
        JsonModel::String(text) => valid_utf8(text),
        JsonModel::Array(items) => forall|i: int|
            0 <= i < items.len() ==> json_wf(#[trigger] items[i]),
        JsonModel::Object(members) => keys_fresh(members, Seq::empty()) && forall|i: int|
            0 <= i < members.len() ==> valid_utf8((#[trigger] members[i]).0) && json_wf(
                members[i].1,
            ),
        _ => true,
    }
}

/// A tree that was made from well-formed JSON gives that JSON back.
pub proof fn lemma_json_round_trip(j: JsonModel, ty: int, reg: TypeRegistry, depth: nat)
    requires
        json_wf(j),
    ensures
        value_from_json(j, ty, reg, depth) matches Ok(v) ==> value_json(v) == Ok::<
            JsonModel,
            CafError,
        >(j),
    decreases j, depth, 5int,
{
    if 0 <= ty < reg.types@.len() {
        match reg.types@[ty].shape {
            TypeShape::Scalar(ScalarKind::Text) => {
                if let JsonModel::String(text) = j {
                    lemma_unescape_escaped(text);
                }
            },
            TypeShape::Scalar(_) => {},
            TypeShape::List(item) => {
                lemma_list_round_trip(j, ItemTypes::All(item), ty, reg);
            },
            TypeShape::TupleStruct(ids) => {
                lemma_list_round_trip(j, ItemTypes::Each(ids@), ty, reg);
            },
            TypeShape::Struct(fields) => {
                lemma_map_round_trip(j, MemberTypes::Fields(fields@), ty, reg);
            },
            TypeShape::MapOf(key, value) => {
                lemma_map_round_trip(j, MemberTypes::Values(value), ty, reg);
            },
            TypeShape::Enum(variants) => {
                match option_field(variants@) {
                    Some(inner) => {
                        if !(j is Null) && depth > 0 {
                            lemma_json_round_trip(j, inner as int, reg, (depth - 1) as nat);
                        }
                    },
                    None => {
                        lemma_variant_round_trip(j, variants@, ty, reg);
                    },
                }
            },
        }
    }
}

/// A list that was made from a well-formed JSON array gives that array back.
pub proof fn lemma_list_round_trip(j: JsonModel, types: ItemTypes, ty: int, reg: TypeRegistry)
    requires
        json_wf(j),
    ensures
        list_from_json(j, types, ty, reg) matches Ok(l) ==> list_json(l) == Ok::<
            JsonModel,
            CafError,
        >(j) && j is Array && values_json(l.entries) == Ok::<Seq<JsonModel>, CafError>(
            j->Array_0,
        ),
    decreases j, 0nat, 4int,
{
    if let JsonModel::Array(items) = j {
        lemma_items_round_trip(items, types, reg);
    }
}

/// The values that were made from well-formed JSON items give the items back.
pub proof fn lemma_items_round_trip(items: Seq<JsonModel>, types: ItemTypes, reg: TypeRegistry)
    requires
        forall|i: int| 0 <= i < items.len() ==> json_wf(#[trigger] items[i]),
    ensures
        items_from_json(items, types, reg) matches Ok(vs) ==> values_json(vs) == Ok::<
            Seq<JsonModel>,
            CafError,
        >(items),
    decreases items, 0nat, 0int,
{
    match items_from_json(items, types, reg) {
        Ok(vs) => {
            if items.len() == 0 {
                assert(items =~= Seq::<JsonModel>::empty());
            } else {
                assert(json_wf(items[0]));
                lemma_json_round_trip(items[0], first_type(types), reg, reg.types@.len());
                assert forall|i: int| 0 <= i < items.drop_first().len() implies json_wf(
                    #[trigger] items.drop_first()[i],
                ) by {
                    assert(items.drop_first()[i] == items[i + 1]);
                }
                lemma_items_round_trip(items.drop_first(), rest_types(types), reg);
                let first = value_from_json(
                    items[0],
                    first_type(types),
                    reg,
                    reg.types@.len(),
                )->Ok_0;
                let rest = items_from_json(items.drop_first(), rest_types(types), reg)->Ok_0;
                assert(vs == seq![first] + rest);
                assert(vs[0] == first);
                assert(vs.drop_first() =~= rest);
                assert(seq![items[0]] + items.drop_first() =~= items);
            }
        },
        _ => {},
    }
}

/// A map that was made from a well-formed JSON object gives that object back.
pub proof fn lemma_map_round_trip(j: JsonModel, types: MemberTypes, ty: int, reg: TypeRegistry)
    requires
        json_wf(j),
    ensures
        map_from_json(j, types, ty, reg) matches Ok(m) ==> map_json(m) == Ok::<
            JsonModel,
            CafError,
        >(j),
    decreases j, 0nat, 4int,
{
    if let JsonModel::Object(members) = j {
        lemma_members_round_trip(members, Seq::empty(), types, ty, reg);
        assert(Seq::<(Seq<u8>, JsonModel)>::empty() + members =~= members);
    }
}

/// The entries that were made from the members of a well-formed JSON object
/// set exactly those members, in order, behind the members that are there.
pub proof fn lemma_members_round_trip(
    members: Seq<(Seq<u8>, JsonModel)>,
    seen: Seq<(Seq<u8>, JsonModel)>,
    types: MemberTypes,
    ty: int,
    reg: TypeRegistry,
)
    requires
        keys_fresh(members, seen),
        forall|i: int|
            0 <= i < members.len() ==> valid_utf8((#[trigger] members[i]).0) && json_wf(
                members[i].1,
            ),
    ensures
        members_from_json(members, types, ty, reg) matches Ok(es) ==> entries_json(es, seen)
            == Ok::<Seq<(Seq<u8>, JsonModel)>, CafError>(seen + members),
    decreases members, 0nat, 0int,
{
    match members_from_json(members, types, ty, reg) {
        Ok(es) => {
            if members.len() == 0 {
                assert(seen + members =~= seen);
            } else {
                let key = members[0].0;
                let val = members[0].1;
                assert(valid_utf8(members[0].0) && json_wf(members[0].1));
                let rest = members_from_json(members.drop_first(), types, ty, reg)->Ok_0;
                match types {
                    MemberTypes::Fields(fields) => {
                        let i = field_index(fields, key, 0)->Some_0;
                        lemma_json_round_trip(
                            val,
                            fields[i].type_id as int,
                            reg,
                            reg.types@.len(),
                        );
                    },
                    MemberTypes::Values(value) => {
                        lemma_json_round_trip(val, value as int, reg, reg.types@.len());
                        lemma_unescape_escaped(key);
                    },
                }
                assert forall|i: int| 0 <= i < members.drop_first().len() implies valid_utf8(
                    (#[trigger] members.drop_first()[i]).0,
                ) && json_wf(members.drop_first()[i].1) by {
                    assert(members.drop_first()[i] == members[i + 1]);
                }
                lemma_members_round_trip(
                    members.drop_first(),
                    seen.push(members[0]),
                    types,
                    ty,
                    reg,
                );
                assert(es.drop_first() =~= rest);
                assert(entry_json(es[0], seen) == Ok::<Seq<(Seq<u8>, JsonModel)>, CafError>(
                    seen.push(members[0]),
                ));
                assert(seen.push(members[0]) + members.drop_first() =~= seen + members);
            }
        },
        _ => {},
    }
}

/// A variant that was made from well-formed JSON gives that JSON back.
pub proof fn lemma_variant_round_trip(
    j: JsonModel,
    variants: Seq<VariantShape>,
    ty: int,
    reg: TypeRegistry,
)
    requires
        json_wf(j),
    ensures
        variant_from_json(j, variants, ty, reg) matches Ok(e) ==> variant_json(e) == Ok::<
            JsonModel,
            CafError,
        >(j),
    decreases j, 0nat, 3int,
{
    match variant_from_json(j, variants, ty, reg) {
        Ok(e) => {
            if let JsonModel::Object(members) = j {
                let name = members[0].0;
                let val = members[0].1;
                assert(members =~= seq![(name, val)]);
                assert(json_wf(members[0].1));
                let i = variant_index(variants, name, 0)->Some_0;
                match variants[i].kind {
                    VariantKind::Tuple(ids) => {
                        if ids@.len() == 1 {
                            lemma_json_round_trip(val, ids@[0] as int, reg, reg.types@.len());
                            if !is_list(reg, ids@[0] as int) {
                                let v = value_from_json(
                                    val,
                                    ids@[0] as int,
                                    reg,
                                    reg.types@.len(),
                                )->Ok_0;
                                lemma_values_json_one(v);
                            }
                        } else {
                            lemma_list_round_trip(val, ItemTypes::Each(ids@), ty, reg);
                        }
                    },
                    VariantKind::Struct(fields) => {
                        lemma_map_round_trip(val, MemberTypes::Fields(fields@), ty, reg);
                    },
                    VariantKind::Unit => {},
                }
            }
        },
        _ => {},
    }
}

/// The JSON of a sequence of one value is the JSON of that value, alone.
pub proof fn lemma_values_json_one(v: ValueModel)
    ensures
        values_json(seq![v]) == match value_json(v) {
            Ok(j) => Ok::<Seq<JsonModel>, CafError>(seq![j]),
            Err(e) => Err(e),
        },
{
    let one = seq![v];
    assert(one[0] == v);
    assert(one.drop_first() =~= Seq::<ValueModel>::empty());
    assert(values_json(one.drop_first()) == Ok::<Seq<JsonModel>, CafError>(Seq::empty()));
    match value_json(v) {
        Ok(j) => {
            assert(seq![j] + Seq::<JsonModel>::empty() =~= seq![j]);
        },
        _ => {},
    }
}

/// A tuple variant with exactly one field has no array around the field in
/// JSON: the variant's name stands over the field's own JSON.
pub proof fn lemma_single_field_is_unwrapped(id: IdentModel, tuple: ListModel)
    requires
        tuple.entries.len() == 1,
    ensures
        variant_json(EnumVariantModel::Tuple { id, tuple }) == match value_json(tuple.entries[0]) {
            Ok(j) => Ok::<JsonModel, CafError>(object_of(id.name, j)),
            Err(e) => Err(e),
        },
{
    assert(tuple.entries =~= seq![tuple.entries[0]]);
    lemma_values_json_one(tuple.entries[0]);
}

/// A tuple variant with exactly one field, which is no list, is read from
/// the field's own JSON under the variant's name, with no array around it.
pub proof fn lemma_single_field_is_read_unwrapped(
    name: Seq<u8>,
    field: JsonModel,
    variants: Seq<VariantShape>,
    ty: int,
    reg: TypeRegistry,
)
    requires
        variant_index(variants, name, 0) matches Some(i) && (variants[i].kind matches VariantKind::Tuple(
            ids,
        ) && ids@.len() == 1 && !is_list(reg, ids@[0] as int)),
    ensures
        variant_from_json(object_of(name, field), variants, ty, reg) == match value_from_json(
            field,
            (variants[variant_index(variants, name, 0)->Some_0].kind->Tuple_0)@[0] as int,
            reg,
            reg.types@.len(),
        ) {
            Ok(v) => Ok::<EnumVariantModel, JsonError>(
                EnumVariantModel::Tuple { id: plain_ident(name), tuple: plain_list(seq![v]) },
            ),
            Err(e) => Err(e),
        },
{
}

/// An array under the name of a tuple variant whose one field is a list is
/// read as the array shorthand, and the shorthand gives the same JSON back.
pub proof fn lemma_list_field_is_array_shorthand(
    name: Seq<u8>,
    items: Seq<JsonModel>,
    variants: Seq<VariantShape>,
    ty: int,
    reg: TypeRegistry,
)
    requires
        variant_index(variants, name, 0) matches Some(i) && (variants[i].kind matches VariantKind::Tuple(
            ids,
        ) && ids@.len() == 1 && is_list(reg, ids@[0] as int)),
        valid_utf8(name),
        forall|i: int| 0 <= i < items.len() ==> json_wf(#[trigger] items[i]),
    ensures
        variant_from_json(object_of(name, JsonModel::Array(items)), variants, ty, reg) matches Ok(
            e,
        ) ==> e is Array && variant_json(e) == Ok::<JsonModel, CafError>(
            object_of(name, JsonModel::Array(items)),
        ),
{
    let j = object_of(name, JsonModel::Array(items));
    let members = seq![(name, JsonModel::Array(items))];
    assert(json_wf(JsonModel::Array(items)));
    assert(json_wf(j)) by {
        assert(members.drop_first() =~= Seq::<(Seq<u8>, JsonModel)>::empty());
        assert(keys_fresh(members.drop_first(), Seq::<(Seq<u8>, JsonModel)>::empty().push(members[0])));
        assert(keys_fresh(members, Seq::empty()));
    }
    lemma_variant_round_trip(j, variants, ty, reg);
}

} // verus!
