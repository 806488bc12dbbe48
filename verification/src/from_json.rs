//! From JSON to the syntax tree, by the shape of the type that the JSON
//! stands for.
//!
//! The nodes that are made have no fill. An enum stands in JSON as the name
//! of a unit variant, or as an object whose one key names the variant. Under
//! that key a tuple variant of one field has the field's value as it is, and
//! is read as the array shorthand where the field is a list; a tuple variant
//! of none or several fields has an array of them. An enum that looks like
//! an option is not there at all: `null` is `none`, anything else is the
//! value.
use vstd::prelude::*;
use vstd::string::StringSliceAdditionalSpecFns;
use vstd::utf8::encode_utf8;
use crate::fill::{CafFill, FillSegmentModel};
use crate::json::{
    jsons_view, lemma_jsons_view, lemma_members_view, members_view, JsonEntry, JsonModel,
    JsonValue,
};
use crate::json_number::{number_text, number_to_text};
use crate::names::name_new;
use crate::registry::{
    find_field, find_variant, field_index, variant_index, FieldShape, ScalarKind, TypeRegistry,
    TypeShape, VariantKind, VariantShape,
};
use crate::scan::{escape_text, escaped};
use crate::value::{
    entries_view, lemma_values_view, values_view, BoolModel, CafArray, CafBool, CafEnumVariant,
    CafEnumVariantIdentifier, CafMap, CafMapEntry, CafNone, CafNumber, CafNumberValue, CafString,
    CafTuple, CafValue, EnumVariantModel, IdentModel, KeyValueModel, ListModel, MapEntryModel,
    MapKeyModel, MapModel, NumberModel, NumberValueModel, StringModel, ValueModel,
};

verus! {

/// How a JSON value fails to be a value of a type.
#[derive(Debug, Clone, Copy, PartialEq, Eq, Structural)]
pub enum JsonErrorKind {
    /// The type is not registered.
    UnknownType,
    /// The JSON does not have the shape of the type.
    ShapeMismatch,
    /// An array does not have as many items as the type has fields.
    WrongArity,
    /// An object has a key that names no field of the type.
    UnknownField,
    /// The JSON names a variant that the enum does not have.
    UnknownVariant,
    /// The JSON is a string, which stands for a unit variant, and the variant is not one.
    NotUnitVariant,
    /// The JSON gives a value for a variant that has none.
    UnitVariantWithValue,
    /// The JSON is an object that does not have exactly one member.
    NotOneEntry,
    /// The JSON is neither a string nor an object.
    NotStringOrObject,
    /// Options are nested deeper than there are types.
    OptionDepth,
}

/// A failed conversion: what went wrong, and the type that was being read.
#[derive(Debug, Clone, Copy, PartialEq, Eq, Structural)]
pub struct JsonError {
    pub kind: JsonErrorKind,
    pub type_id: usize,
}

pub open spec fn json_error(kind: JsonErrorKind, ty: int) -> JsonError {
    JsonError { kind, type_id: ty as usize }
}

/// A number without fill, written as JSON writes it.
pub open spec fn plain_number(text: Seq<u8>) -> ValueModel {
    ValueModel::Number(
        NumberModel {
            fill: Seq::empty(),
            number: NumberValueModel { original: text, canonical: text },
        },
    )
}

/// A quoted string without fill that stands for `text`.
pub open spec fn plain_string(text: Seq<u8>) -> ValueModel {
    ValueModel::String(StringModel { fill: Seq::empty(), raw: escaped(text) })
}

pub open spec fn plain_ident(name: Seq<u8>) -> IdentModel {
    IdentModel { fill: Seq::empty(), name }
}

pub open spec fn plain_list(entries: Seq<ValueModel>) -> ListModel {
    ListModel { start_fill: Seq::empty(), entries, end_fill: Seq::empty() }
}

pub open spec fn plain_map(entries: Seq<MapEntryModel>) -> MapModel {
    MapModel { start_fill: Seq::empty(), entries, end_fill: Seq::empty() }
}

/// The entry `name: value` of a struct.
pub open spec fn field_entry(name: Seq<u8>, value: ValueModel) -> MapEntryModel {
    MapEntryModel::KeyValue(
        KeyValueModel {
            key: MapKeyModel::FieldName { fill: Seq::empty(), name },
            semicolon_fill: Seq::empty(),
            value,
        },
    )
}

/// The entry `"key": value` of a map.
pub open spec fn text_entry(key: Seq<u8>, value: ValueModel) -> MapEntryModel {
    MapEntryModel::KeyValue(
        KeyValueModel {
            key: MapKeyModel::Value(plain_string(key)),
            semicolon_fill: Seq::empty(),
            value,
        },
    )
}

/// Whether an enum looks like an option: it has two variants, a unit variant
/// `None` and a tuple variant `Some` of one field. Gives the type of that field.
pub open spec fn option_field(variants: Seq<VariantShape>) -> Option<usize> {
    if variants.len() != 2 {
        None
    } else {
        match (
            variant_index(variants, "None".spec_bytes(), 0),
            variant_index(variants, "Some".spec_bytes(), 0),
        ) {
            (Some(none), Some(some)) => match (variants[none].kind, variants[some].kind) {
                (VariantKind::Unit, VariantKind::Tuple(ids)) => if ids@.len() == 1 {
                    Some(ids@[0])
                } else {
                    None
                },
                _ => None,
            },
            _ => None,
        }
    }
}

/// Whether the type `ty` is a list.
pub open spec fn is_list(reg: TypeRegistry, ty: int) -> bool {
    0 <= ty < reg.types@.len() && reg.types@[ty].shape is List
}

/// The types of the items of a sequence: one type for all of them, or one for each.
pub enum ItemTypes {
    All(usize),
    Each(Seq<usize>),
}

pub open spec fn first_type(types: ItemTypes) -> int {
    match types {
        ItemTypes::All(ty) => ty as int,
        ItemTypes::Each(ids) => if ids.len() > 0 {
            ids[0] as int
        } else {
            -1
        },
    }
}

pub open spec fn rest_types(types: ItemTypes) -> ItemTypes {
    match types {
        ItemTypes::All(ty) => types,
        ItemTypes::Each(ids) => if ids.len() > 0 {
            ItemTypes::Each(ids.drop_first())
        } else {
            types
        },
    }
}

/// The types of the values of the members of an object: the fields of a
/// struct, found by name, or one type for all the values of a map.
pub enum MemberTypes {
    Fields(Seq<FieldShape>),
    Values(usize),
}

/// The value that `j` stands for as a value of the type `ty`.
pub open spec fn value_from_json(j: JsonModel, ty: int, reg: TypeRegistry, depth: nat) -> Result<
    ValueModel,
    JsonError,
>
    decreases j, depth, 5int,
{
    if !(0 <= ty < reg.types@.len()) {
        Err(json_error(JsonErrorKind::UnknownType, ty))
    } else {
        match reg.types@[ty].shape {
            TypeShape::Scalar(ScalarKind::Number) => match j {
                JsonModel::Number(text) => Ok(plain_number(text)),
                _ => Err(json_error(JsonErrorKind::ShapeMismatch, ty)),
            },
            TypeShape::Scalar(ScalarKind::Text) => match j {
                JsonModel::String(text) => Ok(plain_string(text)),
                _ => Err(json_error(JsonErrorKind::ShapeMismatch, ty)),
            },
            TypeShape::Scalar(ScalarKind::Bool) => match j {
                JsonModel::Bool(value) => Ok(
                    ValueModel::Bool(BoolModel { fill: Seq::empty(), value }),
                ),
                _ => Err(json_error(JsonErrorKind::ShapeMismatch, ty)),
            },
            TypeShape::List(item) => match list_from_json(j, ItemTypes::All(item), ty, reg) {
                Ok(l) => Ok(ValueModel::Array(l)),
                Err(e) => Err(e),
            },
            TypeShape::TupleStruct(ids) => match list_from_json(
                j,
                ItemTypes::Each(ids@),
                ty,
                reg,
            ) {
                Ok(l) => Ok(ValueModel::Tuple(l)),
                Err(e) => Err(e),
            },
            TypeShape::Struct(fields) => match map_from_json(
                j,
                MemberTypes::Fields(fields@),
                ty,
                reg,
            ) {
                Ok(m) => Ok(ValueModel::Mapping(m)),
                Err(e) => Err(e),
            },
            TypeShape::MapOf(key, value) => match map_from_json(
                j,
                MemberTypes::Values(value),
                ty,
                reg,
            ) {
                Ok(m) => Ok(ValueModel::Mapping(m)),
                Err(e) => Err(e),
            },
            TypeShape::Enum(variants) => match option_field(variants@) {
                Some(inner) => if j is Null {
                    Ok(ValueModel::Nothing(Seq::empty()))
                } else if depth == 0 {
                    Err(json_error(JsonErrorKind::OptionDepth, ty))
                } else {
                    value_from_json(j, inner as int, reg, (depth - 1) as nat)
                },
                None => match variant_from_json(j, variants@, ty, reg) {
                    Ok(e) => Ok(ValueModel::EnumVariant(e)),
                    Err(e) => Err(e),
                },
            },
        }
    }
}

/// The list that `j` stands for: `j` must be an array, and where the items
/// have a type each, it must have as many items as there are types.
pub open spec fn list_from_json(j: JsonModel, types: ItemTypes, ty: int, reg: TypeRegistry)
    -> Result<ListModel, JsonError>
    decreases j, 0nat, 4int,
{
    match j {
        JsonModel::Array(items) => if types matches ItemTypes::Each(ids) && ids.len()
            != items.len() {
            Err(json_error(JsonErrorKind::WrongArity, ty))
        } else {
            match items_from_json(items, types, reg) {
                Ok(vs) => Ok(plain_list(vs)),
                Err(e) => Err(e),
            }
        },
        _ => Err(json_error(JsonErrorKind::ShapeMismatch, ty)),
    }
}

/// The values that the items of an array stand for, or the first error among them.
pub open spec fn items_from_json(items: Seq<JsonModel>, types: ItemTypes, reg: TypeRegistry)
    -> Result<Seq<ValueModel>, JsonError>
    decreases items, 0nat, 0int,
{
    if items.len() == 0 {
        Ok(Seq::empty())
    } else {
        match value_from_json(items[0], first_type(types), reg, reg.types@.len()) {
            Err(e) => Err(e),
            Ok(first) => match items_from_json(items.drop_first(), rest_types(types), reg) {
                Err(e) => Err(e),
                Ok(rest) => Ok(seq![first] + rest),
            },
        }
    }
}

/// The map that `j` stands for: `j` must be an object.
pub open spec fn map_from_json(j: JsonModel, types: MemberTypes, ty: int, reg: TypeRegistry)
    -> Result<MapModel, JsonError>
    decreases j, 0nat, 4int,
{
    match j {
        JsonModel::Object(members) => match members_from_json(members, types, ty, reg) {
            Ok(es) => Ok(plain_map(es)),
            Err(e) => Err(e),
        },
        _ => Err(json_error(JsonErrorKind::ShapeMismatch, ty)),
    }
}

/// The entries that the members of an object stand for, or the first error
/// among them. A member of a struct must name one of its fields.
pub open spec fn members_from_json(
    members: Seq<(Seq<u8>, JsonModel)>,
    types: MemberTypes,
    ty: int,
    reg: TypeRegistry,
) -> Result<Seq<MapEntryModel>, JsonError>
    decreases members, 0nat, 0int,
{
    if members.len() == 0 {
        Ok(Seq::empty())
    } else {
        let key = members[0].0;
        let first = match types {
            MemberTypes::Fields(fields) => match field_index(fields, key, 0) {
                Some(i) => match value_from_json(
                    members[0].1,
                    fields[i].type_id as int,
                    reg,
                    reg.types@.len(),
                ) {
                    Ok(v) => Ok(field_entry(key, v)),
                    Err(e) => Err(e),
                },
                None => Err(json_error(JsonErrorKind::UnknownField, ty)),
            },
            MemberTypes::Values(value) => match value_from_json(
                members[0].1,
                value as int,
                reg,
                reg.types@.len(),
            ) {
                Ok(v) => Ok(text_entry(key, v)),
                Err(e) => Err(e),
            },
        };
        match first {
            Err(e) => Err(e),
            Ok(entry) => match members_from_json(members.drop_first(), types, ty, reg) {
                Err(e) => Err(e),
                Ok(rest) => Ok(seq![entry] + rest),
            },
        }
    }
}

/// The variant that `j` stands for.
pub open spec fn variant_from_json(
    j: JsonModel,
    variants: Seq<VariantShape>,
    ty: int,
    reg: TypeRegistry,
) -> Result<EnumVariantModel, JsonError>
    decreases j, 0nat, 3int,
{
    match j {
        JsonModel::String(name) => match variant_index(variants, name, 0) {
            None => Err(json_error(JsonErrorKind::UnknownVariant, ty)),
            Some(i) => match variants[i].kind {
                VariantKind::Unit => Ok(EnumVariantModel::Unit { id: plain_ident(name) }),
                _ => Err(json_error(JsonErrorKind::NotUnitVariant, ty)),
            },
        },
        JsonModel::Object(members) => if members.len() != 1 {
            Err(json_error(JsonErrorKind::NotOneEntry, ty))
        } else {
            let name = members[0].0;
            let id = plain_ident(name);
            match variant_index(variants, name, 0) {
                None => Err(json_error(JsonErrorKind::UnknownVariant, ty)),
                Some(i) => match variants[i].kind {
                    VariantKind::Tuple(ids) => if ids@.len() == 1 {
                        if is_list(reg, ids@[0] as int) {
                            match value_from_json(
                                members[0].1,
                                ids@[0] as int,
                                reg,
                                reg.types@.len(),
                            ) {
                                Ok(ValueModel::Array(array)) => Ok(
                                    EnumVariantModel::Array { id, array },
                                ),
                                Ok(_) => Err(json_error(JsonErrorKind::ShapeMismatch, ty)),
                                Err(e) => Err(e),
                            }
                        } else {
                            match value_from_json(
                                members[0].1,
                                ids@[0] as int,
                                reg,
                                reg.types@.len(),
                            ) {
                                Ok(v) => Ok(
                                    EnumVariantModel::Tuple { id, tuple: plain_list(seq![v]) },
                                ),
                                Err(e) => Err(e),
                            }
                        }
                    } else {
                        match list_from_json(members[0].1, ItemTypes::Each(ids@), ty, reg) {
                            Ok(tuple) => Ok(EnumVariantModel::Tuple { id, tuple }),
                            Err(e) => Err(e),
                        }
                    },
                    VariantKind::Struct(fields) => match map_from_json(
                        members[0].1,
                        MemberTypes::Fields(fields@),
                        ty,
                        reg,
                    ) {
                        Ok(map) => Ok(EnumVariantModel::Mapping { id, map }),
                        Err(e) => Err(e),
                    },
                    VariantKind::Unit => Err(json_error(JsonErrorKind::UnitVariantWithValue, ty)),
                },
            }
        },
        _ => Err(json_error(JsonErrorKind::NotStringOrObject, ty)),
    }
}

/// Whether a conversion's result is what the model says.
pub open spec fn from_agrees<T: View>(r: Result<T, JsonError>, model: Result<T::V, JsonError>)
    -> bool {
    match model {
        Ok(v) => r matches Ok(found) && found@ == v,
        Err(e) => r matches Err(found) && found == e,
    }
}

/// The values read so far, put in front of what the rest gives.
pub open spec fn prepend_result<T>(read: Seq<T>, rest: Result<Seq<T>, JsonError>) -> Result<
    Seq<T>,
    JsonError,
> {
    match rest {
        Ok(items) => Ok(read + items),
        Err(e) => Err(e),
    }
}

fn error(kind: JsonErrorKind, type_id: usize) -> (r: JsonError)
    ensures
        r == json_error(kind, type_id as int),
{
    JsonError { kind, type_id }
}

impl CafEnumVariantIdentifier {
    /// The identifier with the name `json_str` and no fill.
    pub fn from_json_string(json_str: &String) -> (r: Result<Self, String>)
        ensures
            r matches Ok(id) && id@ == plain_ident(encode_utf8(json_str@)),
    {
        Ok(CafEnumVariantIdentifier { fill: CafFill::new(), name: name_new(json_str.as_str()) })
    }
}

impl CafNone {
    /// From JSON's `null`: `none` without fill.
    pub fn from_json_null() -> (r: Result<Self, String>)
        ensures
            r matches Ok(none) && none@ == Seq::<FillSegmentModel>::empty(),
    {
        Ok(CafNone { fill: CafFill::new() })
    }
}

impl CafNumber {
    /// The number `n` without fill, written as JSON writes it.
    pub fn from_json_number(n: &serde_json::Number) -> (r: Self)
        ensures
            ValueModel::Number(r@) == plain_number(number_text(*n)),
    {
        let text = number_to_text(n);
        CafNumber {
            fill: CafFill::new(),
            number: CafNumberValue { original: name_new(text.as_str()), deserialized: n.clone() },
        }
    }
}

impl CafString {
    /// The quoted string without fill that stands for `text`.
    pub fn from_text(text: &str) -> (r: Self)
        ensures
            ValueModel::String(r@) == plain_string(encode_utf8(text@)),
    {
        CafString { fill: CafFill::new(), raw: escape_text(text.as_bytes()) }
    }
}

impl CafBool {
    /// The bool `value` without fill.
    pub fn from_json_bool(value: bool) -> (r: Self)
        ensures
            r@ == (BoolModel { fill: Seq::empty(), value }),
    {
        CafBool { fill: CafFill::new(), value }
    }
}

/// Whether an enum looks like an option, and the type of what it holds.
fn option_field_of(variants: &Vec<VariantShape>) -> (r: Option<usize>)
    ensures
        r == option_field(variants@),
{
    if variants.len() != 2 {
        return None;
    }
    match (find_variant(variants, "None"), find_variant(variants, "Some")) {
        (Some(none), Some(some)) => match (&variants[none].kind, &variants[some].kind) {
            (VariantKind::Unit, VariantKind::Tuple(ids)) => if ids.len() == 1 {
                Some(ids[0])
            } else {
                None
            },
            _ => None,
        },
        _ => None,
    }
}

/// Whether the type `ty` is a list.
fn is_list_type(registry: &TypeRegistry, ty: usize) -> (r: bool)
    ensures
        r == is_list(*registry, ty as int),
{
    if ty >= registry.types.len() {
        return false;
    }
    match &registry.types[ty].shape {
        TypeShape::List(_) => true,
        _ => false,
    }
}

/// The types of the items from `at` on.
pub open spec fn types_from(one: Option<usize>, ids: Seq<usize>, at: int) -> ItemTypes {
    match one {
        Some(ty) => ItemTypes::All(ty),
        None => ItemTypes::Each(ids.subrange(at, ids.len() as int)),
    }
}

/// Reads the items of an array.
fn items_from(
    items: &Vec<JsonValue>,
    one: Option<usize>,
    ids: &Vec<usize>,
    registry: &TypeRegistry,
) -> (r: Result<Vec<CafValue>, JsonError>)
    requires
        one is None ==> ids@.len() == items@.len(),
    ensures
        match items_from_json(jsons_view(items@), types_from(one, ids@, 0), *registry) {
            Ok(vs) => r matches Ok(found) && values_view(found@) == vs,
            Err(e) => r matches Err(found) && found == e,
        },
    decreases items, 0nat, 0int,
{
    let ghost models = jsons_view(items@);
    let ghost whole = items_from_json(models, types_from(one, ids@, 0), *registry);
    let mut out: Vec<CafValue> = Vec::new();
    proof {
        lemma_jsons_view(items@);
        assert(models.subrange(0, models.len() as int) =~= models);
        assert(values_view(out@) =~= Seq::<ValueModel>::empty());
        match whole {
            Ok(vs) => {
                assert(Seq::<ValueModel>::empty() + vs =~= vs);
            },
            _ => {},
        }
    }
    let mut i: usize = 0;
    while i < items.len()
        invariant
            0 <= i <= items@.len(),
            one is None ==> ids@.len() == items@.len(),
            models == jsons_view(items@),
            models.len() == items@.len(),
            forall|j: int| 0 <= j < items@.len() ==> #[trigger] models[j] == items@[j]@,
            whole == items_from_json(models, types_from(one, ids@, 0), *registry),
            whole == prepend_result(
                values_view(out@),
                items_from_json(
                    models.subrange(i as int, models.len() as int),
                    types_from(one, ids@, i as int),
                    *registry,
                ),
            ),
        decreases items@.len() - i,
    {
        let ghost rest = models.subrange(i as int, models.len() as int);
        let ghost read = values_view(out@);
        let ty = match one {
            Some(ty) => ty,
            None => ids[i],
        };
        proof {
            assert(decreases_to!(*items => items[i as int]));
            assert(rest[0] == items@[i as int]@);
            assert(rest.drop_first() =~= models.subrange(i + 1, models.len() as int));
            assert(first_type(types_from(one, ids@, i as int)) == ty);
            if one is None {
                assert(ids@.subrange(i as int, ids@.len() as int).drop_first() =~= ids@.subrange(
                    i + 1,
                    ids@.len() as int,
                ));
            }
            assert(rest_types(types_from(one, ids@, i as int)) == types_from(one, ids@, i + 1));
        }
        match CafValue::from_json_at(&items[i], ty, registry, registry.types.len()) {
            Err(e) => {
                return Err(e);
            },
            Ok(value) => {
                proof {
                    assert(out@.push(value).drop_last() =~= out@);
                    assert(values_view(out@.push(value)) == read.push(value@));
                    match items_from_json(
                        rest.drop_first(),
                        types_from(one, ids@, i + 1),
                        *registry,
                    ) {
                        Ok(tail) => {
                            assert(read + (seq![value@] + tail) =~= read.push(value@) + tail);
                        },
                        _ => {},
                    }
                }
                out.push(value);
            },
        }
        i += 1;
    }
    proof {
        assert(values_view(out@) + Seq::<ValueModel>::empty() =~= values_view(out@));
    }
    Ok(out)
}

/// Reads an array as a list.
fn list_from(
    val: &JsonValue,
    one: Option<usize>,
    ids: &Vec<usize>,
    ty: usize,
    registry: &TypeRegistry,
) -> (r: Result<CafArray, JsonError>)
    ensures
        from_agrees(r, list_from_json(val@, types_from(one, ids@, 0), ty as int, *registry)),
    decreases val, 0nat, 4int,
{
    proof {
        assert(ids@.subrange(0, ids@.len() as int) =~= ids@);
    }
    match val {
        JsonValue::Array(items) => {
            proof {
                lemma_jsons_view(items@);
            }
            if one.is_none() && ids.len() != items.len() {
                return Err(error(JsonErrorKind::WrongArity, ty));
            }
            match items_from(items, one, ids, registry) {
                Ok(entries) => Ok(
                    CafArray { start_fill: CafFill::new(), entries, end_fill: CafFill::new() },
                ),
                Err(e) => Err(e),
            }
        },
        _ => Err(error(JsonErrorKind::ShapeMismatch, ty)),
    }
}

/// The types of the members, as the model has them.
pub open spec fn member_types(fields: Option<&Vec<FieldShape>>, value: usize) -> MemberTypes {
    match fields {
        Some(fields) => MemberTypes::Fields(fields@),
        None => MemberTypes::Values(value),
    }
}

/// Reads the members of an object.
fn members_from(
    members: &Vec<JsonEntry>,
    fields: Option<&Vec<FieldShape>>,
    value: usize,
    ty: usize,
    registry: &TypeRegistry,
) -> (r: Result<Vec<CafMapEntry>, JsonError>)
    ensures
        match members_from_json(
            members_view(members@),
            member_types(fields, value),
            ty as int,
            *registry,
        ) {
            Ok(es) => r matches Ok(found) && entries_view(found@) == es,
            Err(e) => r matches Err(found) && found == e,
        },
    decreases members, 0nat, 0int,
{
    let ghost models = members_view(members@);
    let ghost types = member_types(fields, value);
    let ghost whole = members_from_json(models, types, ty as int, *registry);
    let mut out: Vec<CafMapEntry> = Vec::new();
    proof {
        lemma_members_view(members@);
        assert(models.subrange(0, models.len() as int) =~= models);
        assert(entries_view(out@) =~= Seq::<MapEntryModel>::empty());
        match whole {
            Ok(es) => {
                assert(Seq::<MapEntryModel>::empty() + es =~= es);
            },
            _ => {},
        }
    }
    let mut i: usize = 0;
    while i < members.len()
        invariant
            0 <= i <= members@.len(),
            models == members_view(members@),
            models.len() == members@.len(),
            types == member_types(fields, value),
            forall|j: int|
                0 <= j < members@.len() ==> #[trigger] models[j] == (
                    encode_utf8(members@[j].key@),
                    members@[j].value@,
                ),
            whole == members_from_json(models, types, ty as int, *registry),
            whole == prepend_result(
                entries_view(out@),
                members_from_json(
                    models.subrange(i as int, models.len() as int),
                    types,
                    ty as int,
                    *registry,
                ),
            ),
        decreases members@.len() - i,
    {
        let ghost rest = models.subrange(i as int, models.len() as int);
        let ghost read = entries_view(out@);
        let member = &members[i];
        proof {
            assert(decreases_to!(*members => members[i as int]));
            assert(rest[0] == (encode_utf8(member.key@), member.value@));
            assert(rest.drop_first() =~= models.subrange(i + 1, models.len() as int));
        }
        let entry = match fields {
            Some(fields) => match find_field(fields, member.key.as_str()) {
                Some(at) => match CafValue::from_json_at(
                    &member.value,
                    fields[at].type_id,
                    registry,
                    registry.types.len(),
                ) {
                    Ok(v) => CafMapEntry::struct_field(member.key.as_str(), v),
                    Err(e) => {
                        return Err(e);
                    },
                },
                None => {
                    return Err(error(JsonErrorKind::UnknownField, ty));
                },
            },
            None => match CafValue::from_json_at(
                &member.value,
                value,
                registry,
                registry.types.len(),
            ) {
                Ok(v) => CafMapEntry::map_entry(
                    CafValue::String(CafString::from_text(member.key.as_str())),
                    v,
                ),
                Err(e) => {
                    return Err(e);
                },
            },
        };
        proof {
            assert(out@.push(entry).drop_last() =~= out@);
            assert(entries_view(out@.push(entry)) == read.push(entry@));
            match members_from_json(rest.drop_first(), types, ty as int, *registry) {
                Ok(tail) => {
                    assert(read + (seq![entry@] + tail) =~= read.push(entry@) + tail);
                },
                _ => {},
            }
        }
        out.push(entry);
        i += 1;
    }
    proof {
        assert(entries_view(out@) + Seq::<MapEntryModel>::empty() =~= entries_view(out@));
    }
    Ok(out)
}

/// Reads an object as a map.
fn map_from(
    val: &JsonValue,
    fields: Option<&Vec<FieldShape>>,
    value: usize,
    ty: usize,
    registry: &TypeRegistry,
) -> (r: Result<CafMap, JsonError>)
    ensures
        from_agrees(r, map_from_json(val@, member_types(fields, value), ty as int, *registry)),
    decreases val, 0nat, 4int,
{
    match val {
        JsonValue::Object(members) => match members_from(members, fields, value, ty, registry) {
            Ok(entries) => Ok(
                CafMap { start_fill: CafFill::new(), entries, end_fill: CafFill::new() },
            ),
            Err(e) => Err(e),
        },
        _ => Err(error(JsonErrorKind::ShapeMismatch, ty)),
    }
}

impl CafMap {
    /// Reads the fields of a struct variant from the JSON object `val`.
    pub fn from_json_as_enum(
        val: &JsonValue,
        type_id: usize,
        fields: &Vec<FieldShape>,
        registry: &TypeRegistry,
    ) -> (r: Result<CafMap, JsonError>)
        ensures
            from_agrees(
                r,
                map_from_json(val@, MemberTypes::Fields(fields@), type_id as int, *registry),
            ),
    {
        map_from(val, Some(fields), 0, type_id, registry)
    }
}

impl CafArray {
    /// Reads a list of the type `type_id`, whose items have the type `item`,
    /// from the JSON array `val`.
    pub fn from_json(val: &JsonValue, type_id: usize, item: usize, registry: &TypeRegistry) -> (r:
        Result<CafArray, JsonError>)
        ensures
            from_agrees(
                r,
                list_from_json(val@, ItemTypes::All(item), type_id as int, *registry),
            ),
    {
        let none: Vec<usize> = Vec::new();
        list_from(val, Some(item), &none, type_id, registry)
    }
}

/// The tuple with the fill and the entries of `list`.
fn tuple_from(list: CafArray) -> (r: CafTuple)
    ensures
        r@ == list@,
{
    CafTuple { start_fill: list.start_fill, entries: list.entries, end_fill: list.end_fill }
}

impl CafTuple {
    /// Reads the fields of a tuple variant from the JSON array `val`, which
    /// must hold one item for each field.
    pub fn from_json_as_enum(
        val: &JsonValue,
        type_id: usize,
        ids: &Vec<usize>,
        registry: &TypeRegistry,
    ) -> (r: Result<CafTuple, JsonError>)
        ensures
            from_agrees(
                r,
                list_from_json(val@, ItemTypes::Each(ids@), type_id as int, *registry),
            ),
    {
        proof {
            assert(ids@.subrange(0, ids@.len() as int) =~= ids@);
        }
        match list_from(val, None, ids, type_id, registry) {
            Ok(list) => Ok(tuple_from(list)),
            Err(e) => Err(e),
        }
    }

    /// Reads the one field of a tuple variant from `val`, which is the
    /// field's value as it is.
    pub fn from_json_as_enum_single(val: &JsonValue, field: usize, registry: &TypeRegistry) -> (r:
        Result<CafTuple, JsonError>)
        ensures
            match value_from_json(val@, field as int, *registry, registry.types@.len()) {
                Ok(v) => r matches Ok(found) && found@ == plain_list(seq![v]),
                Err(e) => r matches Err(found) && found == e,
            },
    {
        match CafValue::from_json_at(val, field, registry, registry.types.len()) {
            Ok(value) => {
                let mut entries: Vec<CafValue> = Vec::new();
                entries.push(value);
                proof {
                    lemma_values_view(entries@);
                    assert(values_view(entries@) =~= seq![value@]);
                }
                Ok(CafTuple { start_fill: CafFill::new(), entries, end_fill: CafFill::new() })
            },
            Err(e) => Err(e),
        }
    }
}

impl CafEnumVariant {
    /// Handles enums that look like options, which are not there in JSON:
    /// `null` is `none`, anything else is the value that the option holds.
    /// Gives `None` for any other type.
    pub fn try_from_json_option(val: &JsonValue, type_id: usize, registry: &TypeRegistry) -> (r:
        Result<Option<CafValue>, JsonError>)
        ensures
            match option_type(*registry, type_id as int) {
                Some(inner) => match value_from_json(
                    val@,
                    type_id as int,
                    *registry,
                    registry.types@.len(),
                ) {
                    Ok(v) => r matches Ok(Some(found)) && found@ == v,
                    Err(e) => r matches Err(found) && found == e,
                },
                None => r matches Ok(None),
            },
    {
        if type_id >= registry.types.len() {
            return Ok(None);
        }
        match &registry.types[type_id].shape {
            TypeShape::Enum(variants) => match option_field_of(variants) {
                Some(_) => match CafValue::from_json(val, type_id, registry) {
                    Ok(v) => Ok(Some(v)),
                    Err(e) => Err(e),
                },
                None => Ok(None),
            },
            _ => Ok(None),
        }
    }

    /// Reads a variant of the enum `type_id` from `val`.
    ///
    /// Note: [`Self::try_from_json_option`] should be called first to filter
    /// out enums that look like options.
    pub fn from_json(val: &JsonValue, type_id: usize, registry: &TypeRegistry) -> (r: Result<
        CafEnumVariant,
        JsonError,
    >)
        ensures
            match enum_variants(*registry, type_id as int) {
                Some(variants) => from_agrees(
                    r,
                    variant_from_json(val@, variants, type_id as int, *registry),
                ),
                None => r matches Err(found) && found == json_error(
                    if 0 <= type_id < registry.types@.len() {
                        JsonErrorKind::ShapeMismatch
                    } else {
                        JsonErrorKind::UnknownType
                    },
                    type_id as int,
                ),
            },
    {
        if type_id >= registry.types.len() {
            return Err(error(JsonErrorKind::UnknownType, type_id));
        }
        match &registry.types[type_id].shape {
            TypeShape::Enum(variants) => Self::from_json_variants(
                val,
                variants,
                type_id,
                registry,
            ),
            _ => Err(error(JsonErrorKind::ShapeMismatch, type_id)),
        }
    }

    fn from_json_variants(
        val: &JsonValue,
        variants: &Vec<VariantShape>,
        type_id: usize,
        registry: &TypeRegistry,
    ) -> (r: Result<CafEnumVariant, JsonError>)
        ensures
            from_agrees(r, variant_from_json(val@, variants@, type_id as int, *registry)),
        decreases val, 0nat, 3int,
    {
        match val {
            JsonValue::String(json_str) => {
                let Some(at) = find_variant(variants, json_str.as_str()) else {
                    return Err(error(JsonErrorKind::UnknownVariant, type_id));
                };
                match &variants[at].kind {
                    VariantKind::Unit => Ok(
                        CafEnumVariant::Unit {
                            id: CafEnumVariantIdentifier {
                                fill: CafFill::new(),
                                name: name_new(json_str.as_str()),
                            },
                        },
                    ),
                    _ => Err(error(JsonErrorKind::NotUnitVariant, type_id)),
                }
            },
            JsonValue::Object(json_map) => {
                proof {
                    lemma_members_view(json_map@);
                }
                if json_map.len() != 1 {
                    return Err(error(JsonErrorKind::NotOneEntry, type_id));
                }
                let member = &json_map[0];
                proof {
                    assert(decreases_to!(*json_map => json_map[0]));
                }
                let Some(at) = find_variant(variants, member.key.as_str()) else {
                    return Err(error(JsonErrorKind::UnknownVariant, type_id));
                };
                let id = CafEnumVariantIdentifier {
                    fill: CafFill::new(),
                    name: name_new(member.key.as_str()),
                };
                match &variants[at].kind {
                    VariantKind::Tuple(ids) => {
                        // A tuple of one item is *not* wrapped in an array in JSON.
                        // And if the item is a list then the array shorthand is used.
                        if ids.len() == 1 {
                            let field = ids[0];
                            match CafValue::from_json_at(
                                &member.value,
                                field,
                                registry,
                                registry.types.len(),
                            ) {
                                Err(e) => Err(e),
                                Ok(value) => {
                                    if is_list_type(registry, field) {
                                        match value {
                                            CafValue::Array(array) => Ok(
                                                CafEnumVariant::Array { id, array },
                                            ),
                                            _ => Err(
                                                error(JsonErrorKind::ShapeMismatch, type_id),
                                            ),
                                        }
                                    } else {
                                        let mut entries: Vec<CafValue> = Vec::new();
                                        entries.push(value);
                                        proof {
                                            lemma_values_view(entries@);
                                            assert(values_view(entries@) =~= seq![value@]);
                                        }
                                        Ok(
                                            CafEnumVariant::Tuple {
                                                id,
                                                tuple: CafTuple {
                                                    start_fill: CafFill::new(),
                                                    entries,
                                                    end_fill: CafFill::new(),
                                                },
                                            },
                                        )
                                    }
                                },
                            }
                        } else {
                            // A tuple of no or several items: JSON has an array around them.
                            proof {
                                assert(ids@.subrange(0, ids@.len() as int) =~= ids@);
                            }
                            match list_from(&member.value, None, ids, type_id, registry) {
                                Ok(list) => Ok(
                                    CafEnumVariant::Tuple { id, tuple: tuple_from(list) },
                                ),
                                Err(e) => Err(e),
                            }
                        }
                    },
                    VariantKind::Struct(fields) => {
                        match map_from(&member.value, Some(fields), 0, type_id, registry) {
                            Ok(map) => Ok(CafEnumVariant::Mapping { id, map }),
                            Err(e) => Err(e),
                        }
                    },
                    VariantKind::Unit => Err(error(JsonErrorKind::UnitVariantWithValue, type_id)),
                }
            },
            _ => Err(error(JsonErrorKind::NotStringOrObject, type_id)),
        }
    }
}

/// The variants of the type `ty`, where it is a registered enum.
pub open spec fn enum_variants(reg: TypeRegistry, ty: int) -> Option<Seq<VariantShape>> {
    if 0 <= ty < reg.types@.len() {
        match reg.types@[ty].shape {
            TypeShape::Enum(variants) => Some(variants@),
            _ => None,
        }
    } else {
        None
    }
}

/// The type that the type `ty` holds, where it is a registered enum that
/// looks like an option.
pub open spec fn option_type(reg: TypeRegistry, ty: int) -> Option<usize> {
    match enum_variants(reg, ty) {
        Some(variants) => option_field(variants),
        None => None,
    }
}

impl CafValue {
    /// Reads a value of the type `type_id` from `val`.
    pub fn from_json(val: &JsonValue, type_id: usize, registry: &TypeRegistry) -> (r: Result<
        CafValue,
        JsonError,
    >)
        ensures
            from_agrees(
                r,
                value_from_json(val@, type_id as int, *registry, registry.types@.len()),
            ),
    {
        Self::from_json_at(val, type_id, registry, registry.types.len())
    }

    /// Reads a value of the type `type_id` from `val`, passing through at
    /// most `depth` options.
    pub fn from_json_at(val: &JsonValue, type_id: usize, registry: &TypeRegistry, depth: usize)
        -> (r: Result<CafValue, JsonError>)
        ensures
            from_agrees(r, value_from_json(val@, type_id as int, *registry, depth as nat)),
        decreases val, depth, 5int,
    {
        if type_id >= registry.types.len() {
            return Err(error(JsonErrorKind::UnknownType, type_id));
        }
        match &registry.types[type_id].shape {
            TypeShape::Scalar(ScalarKind::Number) => match val {
                JsonValue::Number(n) => Ok(CafValue::Number(CafNumber::from_json_number(n))),
                _ => Err(error(JsonErrorKind::ShapeMismatch, type_id)),
            },
            TypeShape::Scalar(ScalarKind::Text) => match val {
                JsonValue::String(s) => Ok(CafValue::String(CafString::from_text(s.as_str()))),
                _ => Err(error(JsonErrorKind::ShapeMismatch, type_id)),
            },
            TypeShape::Scalar(ScalarKind::Bool) => match val {
                JsonValue::Bool(b) => Ok(CafValue::Bool(CafBool::from_json_bool(*b))),
                _ => Err(error(JsonErrorKind::ShapeMismatch, type_id)),
            },
            TypeShape::List(item) => {
                let none: Vec<usize> = Vec::new();
                match list_from(val, Some(*item), &none, type_id, registry) {
                    Ok(list) => Ok(CafValue::Array(list)),
                    Err(e) => Err(e),
                }
            },
            TypeShape::TupleStruct(ids) => {
                proof {
                    assert(ids@.subrange(0, ids@.len() as int) =~= ids@);
                }
                match list_from(val, None, ids, type_id, registry) {
                    Ok(list) => Ok(CafValue::Tuple(tuple_from(list))),
                    Err(e) => Err(e),
                }
            },
            TypeShape::Struct(fields) => match map_from(val, Some(fields), 0, type_id, registry) {
                Ok(map) => Ok(CafValue::Mapping(map)),
                Err(e) => Err(e),
            },
            TypeShape::MapOf(_, value) => match map_from(val, None, *value, type_id, registry) {
                Ok(map) => Ok(CafValue::Mapping(map)),
                Err(e) => Err(e),
            },
            TypeShape::Enum(variants) => match option_field_of(variants) {
                Some(inner) => match val {
                    JsonValue::Null => Ok(CafValue::Nothing(CafNone { fill: CafFill::new() })),
                    _ => {
                        if depth == 0 {
                            return Err(error(JsonErrorKind::OptionDepth, type_id));
                        }
                        Self::from_json_at(val, inner, registry, depth - 1)
                    },
                },
                None => match CafEnumVariant::from_json_variants(
                    val,
                    variants,
                    type_id,
                    registry,
                ) {
                    Ok(v) => Ok(CafValue::EnumVariant(v)),
                    Err(e) => Err(e),
                },
            },
        }
    }
}

} // verus!
