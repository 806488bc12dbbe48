//! From the syntax tree to JSON.
//!
//! An enum variant becomes its name where it has no payload, else an object
//! with the name as its one key. A tuple payload of exactly one value stands
//! under the key as it is; one of none or several is wrapped in an array.
use vstd::prelude::*;
use vstd::string::StringSliceAdditionalSpecFns;
use vstd::utf8::encode_utf8;
use crate::json::{
    insert_member, jsons_view, lemma_jsons_view, members_view, object_insert, object_of,
    object_with, text_from_utf8, text_of_bytes, CafError, CafResult, JsonEntry, JsonModel, JsonValue,
};
use crate::json_number::{json_number_text, number_from_text};
use crate::names::{ascii_as_str, name_as_str, name_bytes};
use crate::scan::{unescape, unescaped};
use crate::value::{
    entries_view, lemma_entries_view, lemma_values_view, values_view, BuiltinModel, CafArray,
    CafBool, CafBuiltin, CafEnumVariant, CafEnumVariantIdentifier, CafHexColor, CafMap, CafMapEntry,
    CafMapKey, CafMapKeyValue, CafNone, CafNumber, CafString, CafTuple, CafValue, EnumVariantModel,
    HexColor, ListModel, MapEntryModel, MapKeyModel, MapModel, ValKind, ValueModel,
};

verus! {

/// The `width` decimal digits of `n`, the most significant first.
pub open spec fn decimal_digits(n: int, width: nat) -> Seq<u8>
    decreases width,
{
    if width == 0 {
        Seq::empty()
    } else {
        decimal_digits(n / 10, (width - 1) as nat).push((48 + n % 10) as u8)
    }
}

/// `s` without the zeros at its end, but for its first byte.
pub open spec fn trim_zeros(s: Seq<u8>) -> Seq<u8>
    decreases s.len(),
{
    if s.len() > 1 && s.last() == 48 {
        trim_zeros(s.drop_last())
    } else {
        s
    }
}

/// The decimal text of the channel that the hex pair `k` stands for, which
/// is `(k + 1) / 256`: `1.0` for `FF`, else `0.` and up to eight digits.
pub open spec fn channel_decimal(k: u8) -> Seq<u8> {
    if k == 255 {
        seq![49u8, 46, 48]
    } else {
        seq![48u8, 46] + trim_zeros(decimal_digits((k + 1) * 390625, 8))
    }
}

/// The name under which a unit stands in JSON.
pub open spec fn unit_name(val: ValKind) -> Seq<u8> {
    match val {
        ValKind::Auto => "Auto".spec_bytes(),
        ValKind::Px => "Px".spec_bytes(),
        ValKind::Percent => "Percent".spec_bytes(),
        ValKind::Vw => "Vw".spec_bytes(),
        ValKind::Vh => "Vh".spec_bytes(),
        ValKind::VMin => "VMin".spec_bytes(),
        ValKind::VMax => "VMax".spec_bytes(),
    }
}

/// The JSON number of a colour channel.
pub open spec fn channel_json(k: u8) -> CafResult<JsonModel> {
    match json_number_text(channel_decimal(k)) {
        Some(text) => Ok(JsonModel::Number(text)),
        None => Err(CafError::ColorNumber),
    }
}

/// A colour in JSON: an object keyed `Srgba` that holds the four channels as
/// numbers. A colour without alpha has the alpha of `FF`.
pub open spec fn color_json(color: HexColor) -> CafResult<JsonModel> {
    let alpha = match color.alpha {
        Some(a) => a,
        None => 255u8,
    };
    match (channel_json(color.red), channel_json(color.green), channel_json(color.blue),
        channel_json(alpha)) {
        (Ok(r), Ok(g), Ok(b), Ok(a)) => Ok(
            object_of(
                "Srgba".spec_bytes(),
                JsonModel::Object(
                    object_insert(
                        object_insert(
                            object_insert(
                                object_insert(Seq::empty(), "red".spec_bytes(), r),
                                "green".spec_bytes(),
                                g,
                            ),
                            "blue".spec_bytes(),
                            b,
                        ),
                        "alpha".spec_bytes(),
                        a,
                    ),
                ),
            ),
        ),
        _ => Err(CafError::ColorNumber),
    }
}

/// A builtin in JSON. `auto` is the string `Auto`; any other length is an
/// object with the unit's name as its one key and the number under it.
pub open spec fn builtin_json(b: BuiltinModel) -> CafResult<JsonModel> {
    match b {
        BuiltinModel::Color { fill, color } => color_json(color),
        BuiltinModel::Val { fill, number, val } => match (val, number) {
            (ValKind::Auto, _) => Ok(JsonModel::String(unit_name(ValKind::Auto))),
            (_, Some(n)) => Ok(object_of(unit_name(val), JsonModel::Number(n.canonical))),
            (_, None) => Err(CafError::MalformedBuiltin),
        },
    }
}

/// The text that a quoted string stands for.
pub open spec fn string_json(raw: Seq<u8>) -> Seq<u8> {
    text_of_bytes(unescaped(raw))
}

/// A map key in JSON: a field name, the text of a string, a number as it
/// stood in the source, or the name of a variant without payload.
pub open spec fn key_json(k: MapKeyModel) -> CafResult<Seq<u8>> {
    match k {
        MapKeyModel::FieldName { fill, name } => Ok(name),
        MapKeyModel::Value(ValueModel::String(s)) => Ok(string_json(s.raw)),
        MapKeyModel::Value(ValueModel::Number(n)) => Ok(n.number.original),
        MapKeyModel::Value(ValueModel::EnumVariant(EnumVariantModel::Unit { id })) => Ok(id.name),
        _ => Err(CafError::MapKey),
    }
}

/// A list as what stands under an enum variant's name: its one value, or
/// an array of its values where it has none or several.
pub open spec fn unwrap_single(items: Seq<JsonModel>) -> JsonModel {
    if items.len() == 1 {
        items[0]
    } else {
        JsonModel::Array(items)
    }
}

/// A value in JSON.
pub open spec fn value_json(v: ValueModel) -> CafResult<JsonModel>
    decreases v, 0int,
{
    match v {
        ValueModel::EnumVariant(e) => variant_json(e),
        ValueModel::Builtin(b) => builtin_json(b),
        ValueModel::Array(l) => list_json(l),
        ValueModel::Tuple(l) => list_json(l),
        ValueModel::Mapping(m) => map_json(m),
        ValueModel::Number(n) => Ok(JsonModel::Number(n.number.canonical)),
        ValueModel::Bool(b) => Ok(JsonModel::Bool(b.value)),
        ValueModel::Nothing(fill) => Ok(JsonModel::Null),
        ValueModel::String(s) => Ok(JsonModel::String(string_json(s.raw))),
    }
}

/// An array or tuple in JSON: an array of its values.
pub open spec fn list_json(l: ListModel) -> CafResult<JsonModel>
    decreases l, 0int,
{
    match values_json(l.entries) {
        Ok(items) => Ok(JsonModel::Array(items)),
        Err(e) => Err(e),
    }
}

/// The values of a sequence in JSON, or the first error among them.
pub open spec fn values_json(vs: Seq<ValueModel>) -> CafResult<Seq<JsonModel>>
    decreases vs, 0int,
{
    if vs.len() == 0 {
        Ok(Seq::empty())
    } else {
        match value_json(vs[0]) {
            Err(e) => Err(e),
            Ok(first) => match values_json(vs.drop_first()) {
                Err(e) => Err(e),
                Ok(rest) => Ok(seq![first] + rest),
            },
        }
    }
}

/// A map in JSON: an object with one member for each entry.
pub open spec fn map_json(m: MapModel) -> CafResult<JsonModel>
    decreases m, 0int,
{
    match entries_json(m.entries, Seq::empty()) {
        Ok(members) => Ok(JsonModel::Object(members)),
        Err(e) => Err(e),
    }
}

/// The members `into` with the entries of a sequence set in order, or the
/// first error among the entries. An entry whose key is there already
/// takes the place of the member that has it.
pub open spec fn entries_json(es: Seq<MapEntryModel>, into: Seq<(Seq<u8>, JsonModel)>)
    -> CafResult<Seq<(Seq<u8>, JsonModel)>>
    decreases es, 0int,
{
    if es.len() == 0 {
        Ok(into)
    } else {
        match entry_json(es[0], into) {
            Err(e) => Err(e),
            Ok(next) => entries_json(es.drop_first(), next),
        }
    }
}

/// The members `into` with one entry set. A macro parameter stands for no
/// value; the key is converted before the value.
pub open spec fn entry_json(e: MapEntryModel, into: Seq<(Seq<u8>, JsonModel)>) -> CafResult<
    Seq<(Seq<u8>, JsonModel)>,
>
    decreases e, 0int,
{
    match e {
        MapEntryModel::MacroParam => Err(CafError::MacroParam),
        MapEntryModel::KeyValue(kv) => match key_json(kv.key) {
            Err(e) => Err(e),
            Ok(key) => match value_json(kv.value) {
                Err(e) => Err(e),
                Ok(value) => Ok(object_insert(into, key, value)),
            },
        },
    }
}

/// An enum variant in JSON.
pub open spec fn variant_json(e: EnumVariantModel) -> CafResult<JsonModel>
    decreases e, 0int,
{
    match e {
        EnumVariantModel::Unit { id } => Ok(JsonModel::String(id.name)),
        EnumVariantModel::Tuple { id, tuple } => match values_json(tuple.entries) {
            Ok(items) => Ok(object_of(id.name, unwrap_single(items))),
            Err(e) => Err(e),
        },
        EnumVariantModel::Array { id, array } => match list_json(array) {
            Ok(items) => Ok(object_of(id.name, items)),
            Err(e) => Err(e),
        },
        EnumVariantModel::Mapping { id, map } => match map_json(map) {
            Ok(members) => Ok(object_of(id.name, members)),
            Err(e) => Err(e),
        },
    }
}

/// Whether a conversion's result is what the model says.
pub open spec fn json_agrees(r: CafResult<JsonValue>, model: CafResult<JsonModel>) -> bool {
    match model {
        Ok(j) => r matches Ok(found) && found@ == j,
        Err(e) => r matches Err(found) && found == e,
    }
}

/// The text of a name.
fn name_text(name: &smol_str::SmolStr) -> (r: String)
    ensures
        encode_utf8(r@) == name_bytes(*name),
{
    name_as_str(name).to_owned()
}

fn digits(n: u32, width: usize) -> (r: Vec<u8>)
    ensures
        r@ == decimal_digits(n as int, width as nat),
    decreases width,
{
    if width == 0 {
        Vec::new()
    } else {
        let mut r = digits(n / 10, width - 1);
        r.push(48 + (n % 10) as u8);
        r
    }
}

/// The decimal text of the channel that the hex pair `k` stands for.
fn channel_text(k: u8) -> (r: Vec<u8>)
    ensures
        r@ == channel_decimal(k),
        forall|i: int| 0 <= i < r@.len() ==> r@[i] < 128,
{
    if k == 255 {
        return vec![49u8, 46, 48];
    }
    let mut tail = digits((k as u32 + 1) * 390625, 8);
    let ghost whole = tail@;
    while tail.len() > 1 && tail[tail.len() - 1] == 48
        invariant
            trim_zeros(whole) == trim_zeros(tail@),
        decreases tail@.len(),
    {
        let ghost before = tail@;
        let _ = tail.pop();
        proof {
            assert(tail@ =~= before.drop_last());
        }
    }
    let mut r = vec![48u8, 46];
    crate::bytes::append(&mut r, tail.as_slice());
    proof {
        lemma_digits_ascii((k as u32 + 1) * 390625, 8);
        lemma_trimmed(whole);
        assert forall|i: int| 0 <= i < r@.len() implies r@[i] < 128 by {
            if i >= 2 {
                assert(r@[i] == trim_zeros(whole)[i - 2]);
                assert(whole[i - 2] < 128);
            }
        }
    }
    r
}

/// Decimal digits are ASCII.
proof fn lemma_digits_ascii(n: int, width: nat)
    requires
        n >= 0,
    ensures
        decimal_digits(n, width).len() == width,
        forall|i: int| 0 <= i < width ==> #[trigger] decimal_digits(n, width)[i] < 128,
    decreases width,
{
    if width > 0 {
        lemma_digits_ascii(n / 10, (width - 1) as nat);
        let head = decimal_digits(n / 10, (width - 1) as nat);
        assert(decimal_digits(n, width) == head.push((48 + n % 10) as u8));
        assert forall|i: int| 0 <= i < width implies #[trigger] decimal_digits(n, width)[i]
            < 128 by {
            if i < width - 1 {
                assert(decimal_digits(n, width)[i] == head[i]);
            }
        }
    }
}

/// Trimming keeps a prefix.
proof fn lemma_trimmed(s: Seq<u8>)
    ensures
        trim_zeros(s).len() <= s.len(),
        forall|i: int| 0 <= i < trim_zeros(s).len() ==> #[trigger] trim_zeros(s)[i] == s[i],
    decreases s.len(),
{
    if s.len() > 1 && s.last() == 48 {
        lemma_trimmed(s.drop_last());
        assert(trim_zeros(s) == trim_zeros(s.drop_last()));
        assert forall|i: int| 0 <= i < trim_zeros(s).len() implies #[trigger] trim_zeros(s)[i]
            == s[i] by {
            assert(trim_zeros(s.drop_last())[i] == s.drop_last()[i]);
        }
    }
}

/// The JSON number of a colour channel.
fn channel_to_json(k: u8) -> (r: CafResult<JsonValue>)
    ensures
        json_agrees(r, channel_json(k)),
{
    let text = channel_text(k);
    match number_from_text(ascii_as_str(text.as_slice())) {
        Some(n) => Ok(JsonValue::Number(n)),
        None => Err(CafError::ColorNumber),
    }
}

impl CafNumber {
    pub fn to_json(&self) -> (r: CafResult<JsonValue>)
        ensures
            json_agrees(r, value_json(ValueModel::Number(self@))),
    {
        Ok(JsonValue::Number(self.number.deserialized.clone()))
    }
}

impl CafString {
    /// The text that the string stands for.
    pub fn text(&self) -> (r: String)
        ensures
            encode_utf8(r@) == string_json(self@.raw),
    {
        let bytes = unescape(self.raw.as_slice());
        text_from_utf8(bytes.as_slice())
    }

    pub fn to_json(&self) -> (r: CafResult<JsonValue>)
        ensures
            json_agrees(r, value_json(ValueModel::String(self@))),
    {
        Ok(JsonValue::String(self.text()))
    }
}

impl CafBool {
    pub fn to_json(&self) -> (r: CafResult<JsonValue>)
        ensures
            json_agrees(r, value_json(ValueModel::Bool(self@))),
    {
        Ok(JsonValue::Bool(self.value))
    }
}

impl CafNone {
    /// `none` is JSON's `null`.
    pub fn to_json(&self) -> (r: CafResult<JsonValue>)
        ensures
            r matches Ok(j) && j@ == JsonModel::Null,
    {
        Ok(JsonValue::Null)
    }
}

impl CafEnumVariantIdentifier {
    /// The name as text.
    pub fn to_json_string(&self) -> (r: CafResult<String>)
        ensures
            r matches Ok(s) && encode_utf8(s@) == self@.name,
    {
        Ok(name_text(&self.name))
    }
}

impl CafHexColor {
    pub fn to_json(&self) -> (r: CafResult<JsonValue>)
        ensures
            json_agrees(r, color_json(self.color)),
    {
        let alpha = match self.color.alpha {
            Some(a) => a,
            None => 255,
        };
        let red = match channel_to_json(self.color.red) {
            Ok(j) => j,
            Err(e) => {
                return Err(CafError::ColorNumber);
            },
        };
        let green = match channel_to_json(self.color.green) {
            Ok(j) => j,
            Err(e) => {
                return Err(CafError::ColorNumber);
            },
        };
        let blue = match channel_to_json(self.color.blue) {
            Ok(j) => j,
            Err(e) => {
                return Err(CafError::ColorNumber);
            },
        };
        let alpha = match channel_to_json(alpha) {
            Ok(j) => j,
            Err(e) => {
                return Err(CafError::ColorNumber);
            },
        };
        let mut members: Vec<JsonEntry> = Vec::new();
        proof {
            assert(members_view(members@) =~= Seq::<(Seq<u8>, JsonModel)>::empty());
        }
        insert_member(&mut members, "red".to_owned(), red);
        insert_member(&mut members, "green".to_owned(), green);
        insert_member(&mut members, "blue".to_owned(), blue);
        insert_member(&mut members, "alpha".to_owned(), alpha);
        Ok(object_with("Srgba".to_owned(), JsonValue::Object(members)))
    }
}

/// The name under which a unit stands in JSON.
fn unit_to_name(val: ValKind) -> (r: String)
    ensures
        encode_utf8(r@) == unit_name(val),
{
    match val {
        ValKind::Auto => "Auto".to_owned(),
        ValKind::Px => "Px".to_owned(),
        ValKind::Percent => "Percent".to_owned(),
        ValKind::Vw => "Vw".to_owned(),
        ValKind::Vh => "Vh".to_owned(),
        ValKind::VMin => "VMin".to_owned(),
        ValKind::VMax => "VMax".to_owned(),
    }
}

impl CafBuiltin {
    pub fn to_json(&self) -> (r: CafResult<JsonValue>)
        ensures
            json_agrees(r, builtin_json(self@)),
    {
        match self {
            CafBuiltin::Color(color) => color.to_json(),
            CafBuiltin::Val { fill, number, val } => match (val, number) {
                (ValKind::Auto, _) => Ok(JsonValue::String(unit_to_name(ValKind::Auto))),
                (_, Some(n)) => Ok(
                    object_with(unit_to_name(*val), JsonValue::Number(n.deserialized.clone())),
                ),
                (_, None) => Err(CafError::MalformedBuiltin),
            },
        }
    }
}

/// The items read so far, put in front of what the rest gives.
pub open spec fn prepend_json(read: Seq<JsonModel>, rest: CafResult<Seq<JsonModel>>) -> CafResult<
    Seq<JsonModel>,
> {
    match rest {
        Ok(items) => Ok(read + items),
        Err(e) => Err(e),
    }
}

/// Converts the values of a list, in order.
fn values_to_json(vs: &Vec<CafValue>) -> (r: CafResult<Vec<JsonValue>>)
    ensures
        match values_json(values_view(vs@)) {
            Ok(items) => r matches Ok(found) && jsons_view(found@) == items,
            Err(e) => r matches Err(found) && found == e,
        },
    decreases vs,
{
    let ghost models = values_view(vs@);
    let mut out: Vec<JsonValue> = Vec::new();
    proof {
        lemma_values_view(vs@);
        assert(models.subrange(0, models.len() as int) =~= models);
        assert(jsons_view(out@) =~= Seq::<JsonModel>::empty());
        match values_json(models) {
            Ok(items) => {
                assert(Seq::<JsonModel>::empty() + items =~= items);
            },
            _ => {},
        }
    }
    let mut i: usize = 0;
    while i < vs.len()
        invariant
            0 <= i <= vs@.len(),
            models == values_view(vs@),
            models.len() == vs@.len(),
            forall|j: int| 0 <= j < vs@.len() ==> #[trigger] models[j] == vs@[j]@,
            values_json(models) == prepend_json(
                jsons_view(out@),
                values_json(models.subrange(i as int, models.len() as int)),
            ),
        decreases vs@.len() - i,
    {
        let ghost rest = models.subrange(i as int, models.len() as int);
        let ghost read = jsons_view(out@);
        proof {
            assert(decreases_to!(*vs => vs[i as int]));
            assert(rest[0] == vs@[i as int]@);
            assert(rest.drop_first() =~= models.subrange(i + 1, models.len() as int));
        }
        match vs[i].to_json() {
            Err(e) => {
                return Err(e);
            },
            Ok(j) => {
                proof {
                    assert(out@.push(j).drop_last() =~= out@);
                    assert(jsons_view(out@.push(j)) == read.push(j@));
                    match values_json(rest.drop_first()) {
                        Ok(tail) => {
                            assert(read + (seq![j@] + tail) =~= read.push(j@) + tail);
                        },
                        _ => {},
                    }
                }
                out.push(j);
            },
        }
        i += 1;
    }
    proof {
        assert(jsons_view(out@) + Seq::<JsonModel>::empty() =~= jsons_view(out@));
    }
    Ok(out)
}

impl CafArray {
    pub fn to_json(&self) -> (r: CafResult<JsonValue>)
        ensures
            json_agrees(r, list_json(self@)),
        decreases self,
    {
        match values_to_json(&self.entries) {
            Ok(items) => Ok(JsonValue::Array(items)),
            Err(e) => Err(e),
        }
    }
}

impl CafTuple {
    pub fn to_json(&self) -> (r: CafResult<JsonValue>)
        ensures
            json_agrees(r, list_json(self@)),
        decreases self,
    {
        match values_to_json(&self.entries) {
            Ok(items) => Ok(JsonValue::Array(items)),
            Err(e) => Err(e),
        }
    }

    /// The tuple as what stands under an enum variant's name: one value
    /// stands there as it is, none or several are wrapped in an array.
    pub fn to_json_for_enum(&self) -> (r: CafResult<JsonValue>)
        ensures
            match values_json(self@.entries) {
                Ok(items) => r matches Ok(found) && found@ == unwrap_single(items),
                Err(e) => r matches Err(found) && found == e,
            },
        decreases self,
    {
        match values_to_json(&self.entries) {
            Ok(mut items) => {
                proof {
                    lemma_jsons_view(items@);
                }
                if items.len() == 1 {
                    match items.pop() {
                        Some(only) => Ok(only),
                        // Never: there is one item.
                        None => Err(CafError::MalformedBuiltin),
                    }
                } else {
                    Ok(JsonValue::Array(items))
                }
            },
            Err(e) => Err(e),
        }
    }
}

impl CafMapKey {
    /// The key as the key of a JSON object.
    pub fn to_json_map_key(&self) -> (r: CafResult<String>)
        ensures
            match key_json(self@) {
                Ok(key) => r matches Ok(found) && encode_utf8(found@) == key,
                Err(e) => r matches Err(found) && found == e,
            },
    {
        match self {
            CafMapKey::FieldName { fill, name } => Ok(name_text(name)),
            CafMapKey::Value(value) => match value {
                CafValue::String(string) => Ok(string.text()),
                CafValue::Number(number) => Ok(name_text(&number.number.original)),
                CafValue::EnumVariant(CafEnumVariant::Unit { id }) => Ok(name_text(&id.name)),
                _ => Err(CafError::MapKey),
            },
        }
    }
}

impl CafMapKeyValue {
    /// Sets the entry in the members of a JSON object.
    pub fn add_to_json(&self, map: &mut Vec<JsonEntry>) -> (r: CafResult<()>)
        ensures
            match entry_json(MapEntryModel::KeyValue(self@), members_view(old(map)@)) {
                Ok(members) => r is Ok && members_view(final(map)@) == members,
                Err(e) => r matches Err(found) && found == e && final(map)@ == old(map)@,
            },
        decreases self,
    {
        let key = match self.key.to_json_map_key() {
            Ok(key) => key,
            Err(e) => {
                return Err(e);
            },
        };
        let value = match self.value.to_json() {
            Ok(value) => value,
            Err(e) => {
                return Err(e);
            },
        };
        insert_member(map, key, value);
        Ok(())
    }
}

impl CafMapEntry {
    /// Sets the entry in the members of a JSON object.
    pub fn add_to_json(&self, map: &mut Vec<JsonEntry>) -> (r: CafResult<()>)
        ensures
            match entry_json(self@, members_view(old(map)@)) {
                Ok(members) => r is Ok && members_view(final(map)@) == members,
                Err(e) => r matches Err(found) && found == e && final(map)@ == old(map)@,
            },
        decreases self,
    {
        match self {
            CafMapEntry::KeyValue(kv) => kv.add_to_json(map),
            CafMapEntry::MacroParam(_) => Err(CafError::MacroParam),
        }
    }
}

impl CafMap {
    pub fn to_json(&self) -> (r: CafResult<JsonValue>)
        ensures
            json_agrees(r, map_json(self@)),
        decreases self,
    {
        let ghost models = entries_view(self.entries@);
        let mut map: Vec<JsonEntry> = Vec::new();
        proof {
            lemma_entries_view(self.entries@);
            assert(models.subrange(0, models.len() as int) =~= models);
            assert(members_view(map@) =~= Seq::<(Seq<u8>, JsonModel)>::empty());
        }
        let mut i: usize = 0;
        while i < self.entries.len()
            invariant
                0 <= i <= self.entries@.len(),
                models == entries_view(self.entries@),
                models.len() == self.entries@.len(),
                forall|j: int|
                    0 <= j < self.entries@.len() ==> #[trigger] models[j] == self.entries@[j]@,
                entries_json(models, Seq::empty()) == entries_json(
                    models.subrange(i as int, models.len() as int),
                    members_view(map@),
                ),
            decreases self.entries@.len() - i,
        {
            let ghost rest = models.subrange(i as int, models.len() as int);
            proof {
                assert(decreases_to!(self.entries => self.entries[i as int]));
                assert(rest[0] == self.entries@[i as int]@);
                assert(rest.drop_first() =~= models.subrange(i + 1, models.len() as int));
            }
            match self.entries[i].add_to_json(&mut map) {
                Err(e) => {
                    return Err(e);
                },
                Ok(_) => {},
            }
            i += 1;
        }
        Ok(JsonValue::Object(map))
    }
}

impl CafEnumVariant {
    pub fn to_json(&self) -> (r: CafResult<JsonValue>)
        ensures
            json_agrees(r, variant_json(self@)),
        decreases self,
    {
        match self {
            CafEnumVariant::Unit { id } => Ok(JsonValue::String(name_text(&id.name))),
            CafEnumVariant::Tuple { id, tuple } => {
                // If there is one item in the tuple then there is no wrapping array.
                match tuple.to_json_for_enum() {
                    Ok(value) => Ok(object_with(name_text(&id.name), value)),
                    Err(e) => Err(e),
                }
            },
            CafEnumVariant::Array { id, array } => {
                // The array stands under the name as it is.
                match array.to_json() {
                    Ok(value) => Ok(object_with(name_text(&id.name), value)),
                    Err(e) => Err(e),
                }
            },
            CafEnumVariant::Mapping { id, map } => {
                match map.to_json() {
                    Ok(value) => Ok(object_with(name_text(&id.name), value)),
                    Err(e) => Err(e),
                }
            },
        }
    }
}

impl CafValue {
    /// Converts the value to JSON.
    pub fn to_json(&self) -> (r: CafResult<JsonValue>)
        ensures
            json_agrees(r, value_json(self@)),
        decreases self,
    {
        match self {
            CafValue::EnumVariant(v) => v.to_json(),
            CafValue::Builtin(v) => v.to_json(),
            CafValue::Array(v) => v.to_json(),
            CafValue::Tuple(v) => v.to_json(),
            CafValue::Mapping(v) => v.to_json(),
            CafValue::Number(v) => v.to_json(),
            CafValue::Bool(v) => v.to_json(),
            CafValue::Nothing(v) => v.to_json(),
            CafValue::String(v) => v.to_json(),
        }
    }
}

} // verus!
