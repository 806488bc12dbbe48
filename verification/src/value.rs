//! The syntax tree of a document, its mathematical model, and the text that
//! each node stands for.
use vstd::prelude::*;
use serde_json::Number;
use smol_str::SmolStr;
use crate::bytes::{
    COLON, HASH, LBRACE, LBRACKET, LPAREN, PERCENT, QUOTE, RBRACE, RBRACKET, RPAREN, SPACE,
};
use crate::fill::{fill_text, fill_text_or, CafFill, FillSegmentModel};
use crate::json_number::number_text;
use crate::names::name_bytes;

verus! {

/// A number as it stood in the source, with the JSON number it was read as.
#[derive(Debug, Clone, PartialEq)]
pub struct CafNumberValue {
    pub original: SmolStr,
    pub deserialized: Number,
}

/// A number with the fill in front of it.
#[derive(Debug, Clone, PartialEq)]
pub struct CafNumber {
    pub fill: CafFill,
    pub number: CafNumberValue,
}

/// A quoted string. `raw` is what stands between the quotes, escapes included.
#[derive(Debug, Clone, PartialEq)]
pub struct CafString {
    pub fill: CafFill,
    pub raw: Vec<u8>,
}

/// `true` or `false`.
#[derive(Debug, Clone, PartialEq)]
pub struct CafBool {
    pub fill: CafFill,
    pub value: bool,
}

/// The literal `none`.
#[derive(Debug, Clone, PartialEq)]
pub struct CafNone {
    pub fill: CafFill,
}

/// `[` values `]`.
#[derive(Debug, PartialEq)]
pub struct CafArray {
    /// Fill before the opening `[`.
    pub start_fill: CafFill,
    pub entries: Vec<CafValue>,
    /// Fill before the closing `]`.
    pub end_fill: CafFill,
}

/// `(` values `)`.
#[derive(Debug, PartialEq)]
pub struct CafTuple {
    /// Fill before the opening `(`.
    pub start_fill: CafFill,
    pub entries: Vec<CafValue>,
    /// Fill before the closing `)`.
    pub end_fill: CafFill,
}

/// A macro parameter. The format reserves the node; no syntax produces it yet.
#[derive(Debug, Clone, PartialEq)]
pub struct CobMacroParam;

/// The key of a map entry: a field name, or any value.
#[derive(Debug, PartialEq)]
pub enum CafMapKey {
    FieldName { fill: CafFill, name: SmolStr },
    Value(CafValue),
}

/// A key, `:` and a value.
#[derive(Debug, PartialEq)]
pub struct CafMapKeyValue {
    pub key: CafMapKey,
    /// Fill between the key and the `:`.
    pub semicolon_fill: CafFill,
    pub value: CafValue,
}

/// An entry of a map.
#[derive(Debug, PartialEq)]
pub enum CafMapEntry {
    KeyValue(CafMapKeyValue),
    /// Only catch-all params are allowed.
    MacroParam(CobMacroParam),
}

/// `{` entries `}`.
#[derive(Debug, PartialEq)]
pub struct CafMap {
    /// Fill before the opening `{`.
    pub start_fill: CafFill,
    pub entries: Vec<CafMapEntry>,
    /// Fill before the closing `}`.
    pub end_fill: CafFill,
}

/// The name of an enum variant, with the fill in front of it.
#[derive(Debug, Clone, PartialEq)]
pub struct CafEnumVariantIdentifier {
    pub fill: CafFill,
    pub name: SmolStr,
}

/// An enum variant: its name and, right behind it, its payload.
#[derive(Debug, PartialEq)]
pub enum CafEnumVariant {
    Unit { id: CafEnumVariantIdentifier },
    Tuple { id: CafEnumVariantIdentifier, tuple: CafTuple },
    /// Shorthand for and equivalent to a tuple of array.
    Array { id: CafEnumVariantIdentifier, array: CafArray },
    Mapping { id: CafEnumVariantIdentifier, map: CafMap },
}

/// A colour in hex notation. Each channel is the pair of hex digits that
/// stands for it; the alpha pair is absent where the source gave none.
#[derive(Debug, Clone, Copy, PartialEq, Eq, Structural)]
pub struct HexColor {
    pub red: u8,
    pub green: u8,
    pub blue: u8,
    pub alpha: Option<u8>,
}

/// A colour in hex notation, with the fill in front of it.
#[derive(Debug, Clone, PartialEq)]
pub struct CafHexColor {
    pub fill: CafFill,
    pub color: HexColor,
}

/// The unit of a length value.
#[derive(Debug, Clone, Copy, PartialEq, Eq, Structural)]
pub enum ValKind {
    Auto,
    Px,
    Percent,
    Vw,
    Vh,
    VMin,
    VMax,
}

/// Well-known types that have a compact notation of their own.
#[derive(Debug, Clone, PartialEq)]
pub enum CafBuiltin {
    Color(CafHexColor),
    Val {
        fill: CafFill,
        /// There is no number for `auto`.
        number: Option<CafNumberValue>,
        val: ValKind,
    },
}

/// A value of a document.
#[derive(Debug, PartialEq)]
pub enum CafValue {
    EnumVariant(CafEnumVariant),
    Builtin(CafBuiltin),
    Array(CafArray),
    Tuple(CafTuple),
    Mapping(CafMap),
    Number(CafNumber),
    Bool(CafBool),
    Nothing(CafNone),
    String(CafString),
}

/// The same value under the name that the native dialect uses.
pub type CobValue = CafValue;

/// The same key under the name that the native dialect uses.
pub type CobMapKey = CafMapKey;

/// The same key with its value under the name that the native dialect uses.
pub type CobMapKeyValue = CafMapKeyValue;

/// The same entry under the name that the native dialect uses.
pub type CobMapEntry = CafMapEntry;

/// The same map under the name that the native dialect uses.
pub type CobMap = CafMap;

/// The model of fill: its segments in order.
pub type Fill = Seq<FillSegmentModel>;

/// The model of a [`CafNumberValue`]: the text in the source and the text of the JSON number.
pub struct NumberValueModel {
    pub original: Seq<u8>,
    /// The text of the JSON number.
    pub canonical: Seq<u8>,
}

/// The model of a [`CafNumber`].
pub struct NumberModel {
    pub fill: Fill,
    pub number: NumberValueModel,
}

/// The model of a [`CafString`].
pub struct StringModel {
    pub fill: Fill,
    pub raw: Seq<u8>,
}

/// The model of a [`CafBool`].
pub struct BoolModel {
    pub fill: Fill,
    pub value: bool,
}

/// The model of an array or a tuple.
pub struct ListModel {
    pub start_fill: Fill,
    pub entries: Seq<ValueModel>,
    pub end_fill: Fill,
}

/// The model of a [`CafMapKey`].
pub enum MapKeyModel {
    FieldName { fill: Fill, name: Seq<u8> },
    Value(ValueModel),
}

/// The model of a [`CafMapKeyValue`].
pub struct KeyValueModel {
    pub key: MapKeyModel,
    pub semicolon_fill: Fill,
    pub value: ValueModel,
}

/// The model of a [`CafMapEntry`].
pub enum MapEntryModel {
    KeyValue(KeyValueModel),
    MacroParam,
}

/// The model of a [`CafMap`].
pub struct MapModel {
    pub start_fill: Fill,
    pub entries: Seq<MapEntryModel>,
    pub end_fill: Fill,
}

/// The model of a [`CafEnumVariantIdentifier`].
pub struct IdentModel {
    pub fill: Fill,
    pub name: Seq<u8>,
}

/// The model of a [`CafEnumVariant`].
pub enum EnumVariantModel {
    Unit { id: IdentModel },
    Tuple { id: IdentModel, tuple: ListModel },
    Array { id: IdentModel, array: ListModel },
    Mapping { id: IdentModel, map: MapModel },
}

/// The model of a [`CafBuiltin`].
pub enum BuiltinModel {
    Color { fill: Fill, color: HexColor },
    Val { fill: Fill, number: Option<NumberValueModel>, val: ValKind },
}

/// The model of a [`CafValue`].
pub enum ValueModel {
    EnumVariant(EnumVariantModel),
    Builtin(BuiltinModel),
    Array(ListModel),
    Tuple(ListModel),
    Mapping(MapModel),
    Number(NumberModel),
    Bool(BoolModel),
    Nothing(Fill),
    String(StringModel),
}

impl View for CafNumberValue {
    type V = NumberValueModel;

    open spec fn view(&self) -> NumberValueModel {
        NumberValueModel {
            original: name_bytes(self.original),
            canonical: number_text(self.deserialized),
        }
    }
}

impl View for CafNumber {
    type V = NumberModel;

    open spec fn view(&self) -> NumberModel {
        NumberModel { fill: self.fill@, number: self.number@ }
    }
}

impl View for CafString {
    type V = StringModel;

    open spec fn view(&self) -> StringModel {
        StringModel { fill: self.fill@, raw: self.raw@ }
    }
}

impl View for CafBool {
    type V = BoolModel;

    open spec fn view(&self) -> BoolModel {
        BoolModel { fill: self.fill@, value: self.value }
    }
}

impl View for CafNone {
    type V = Fill;

    open spec fn view(&self) -> Fill {
        self.fill@
    }
}

impl View for CafEnumVariantIdentifier {
    type V = IdentModel;

    open spec fn view(&self) -> IdentModel {
        IdentModel { fill: self.fill@, name: name_bytes(self.name) }
    }
}

impl View for CafHexColor {
    type V = BuiltinModel;

    open spec fn view(&self) -> BuiltinModel {
        BuiltinModel::Color { fill: self.fill@, color: self.color }
    }
}

impl View for CafBuiltin {
    type V = BuiltinModel;

    open spec fn view(&self) -> BuiltinModel {
        match self {
            CafBuiltin::Color(color) => color@,
            CafBuiltin::Val { fill, number, val } => BuiltinModel::Val {
                fill: fill@,
                number: match number {
                    Some(n) => Some(n@),
                    None => None,
                },
                val: *val,
            },
        }
    }
}

/// The models of the values of a sequence, in order.
pub open spec fn values_view(vs: Seq<CafValue>) -> Seq<ValueModel>
    decreases vs,
{
    if vs.len() == 0 {
        Seq::empty()
    } else {
        values_view(vs.drop_last()).push(vs.last()@)
    }
}

/// The models of the entries of a sequence, in order.
pub open spec fn entries_view(es: Seq<CafMapEntry>) -> Seq<MapEntryModel>
    decreases es,
{
    if es.len() == 0 {
        Seq::empty()
    } else {
        entries_view(es.drop_last()).push(es.last()@)
    }
}

impl View for CafArray {
    type V = ListModel;

    open spec fn view(&self) -> ListModel
        decreases self,
    {
        ListModel {
            start_fill: self.start_fill@,
            entries: values_view(self.entries@),
            end_fill: self.end_fill@,
        }
    }
}

impl View for CafTuple {
    type V = ListModel;

    open spec fn view(&self) -> ListModel
        decreases self,
    {
        ListModel {
            start_fill: self.start_fill@,
            entries: values_view(self.entries@),
            end_fill: self.end_fill@,
        }
    }
}

impl View for CafMapKey {
    type V = MapKeyModel;

    open spec fn view(&self) -> MapKeyModel
        decreases self,
    {
        match self {
            CafMapKey::FieldName { fill, name } => MapKeyModel::FieldName {
                fill: fill@,
                name: name_bytes(*name),
            },
            CafMapKey::Value(value) => MapKeyModel::Value(value@),
        }
    }
}

impl View for CafMapKeyValue {
    type V = KeyValueModel;

    open spec fn view(&self) -> KeyValueModel
        decreases self,
    {
        KeyValueModel {
            key: self.key@,
            semicolon_fill: self.semicolon_fill@,
            value: self.value@,
        }
    }
}

impl View for CafMapEntry {
    type V = MapEntryModel;

    open spec fn view(&self) -> MapEntryModel
        decreases self,
    {
        match self {
            CafMapEntry::KeyValue(kv) => MapEntryModel::KeyValue(kv@),
            CafMapEntry::MacroParam(_) => MapEntryModel::MacroParam,
        }
    }
}

impl View for CafMap {
    type V = MapModel;

    open spec fn view(&self) -> MapModel
        decreases self,
    {
        MapModel {
            start_fill: self.start_fill@,
            entries: entries_view(self.entries@),
            end_fill: self.end_fill@,
        }
    }
}

impl View for CafEnumVariant {
    type V = EnumVariantModel;

    open spec fn view(&self) -> EnumVariantModel
        decreases self,
    {
        match self {
            CafEnumVariant::Unit { id } => EnumVariantModel::Unit { id: id@ },
            CafEnumVariant::Tuple { id, tuple } => EnumVariantModel::Tuple {
                id: id@,
                tuple: tuple@,
            },
            CafEnumVariant::Array { id, array } => EnumVariantModel::Array {
                id: id@,
                array: array@,
            },
            CafEnumVariant::Mapping { id, map } => EnumVariantModel::Mapping { id: id@, map: map@ },
        }
    }
}

impl View for CafValue {
    type V = ValueModel;

    open spec fn view(&self) -> ValueModel
        decreases self,
    {
        match self {
            CafValue::EnumVariant(v) => ValueModel::EnumVariant(v@),
            CafValue::Builtin(v) => ValueModel::Builtin(v@),
            CafValue::Array(v) => ValueModel::Array(v@),
            CafValue::Tuple(v) => ValueModel::Tuple(v@),
            CafValue::Mapping(v) => ValueModel::Mapping(v@),
            CafValue::Number(v) => ValueModel::Number(v@),
            CafValue::Bool(v) => ValueModel::Bool(v@),
            CafValue::Nothing(v) => ValueModel::Nothing(v@),
            CafValue::String(v) => ValueModel::String(v@),
        }
    }
}

/// `values_view` keeps the length and maps each value to its model.
pub proof fn lemma_values_view(vs: Seq<CafValue>)
    ensures
        values_view(vs).len() == vs.len(),
        forall|i: int| 0 <= i < vs.len() ==> #[trigger] values_view(vs)[i] == vs[i]@,
    decreases vs.len(),
{
    if vs.len() > 0 {
        lemma_values_view(vs.drop_last());
        assert(values_view(vs) == values_view(vs.drop_last()).push(vs.last()@));
    } else {
        assert(values_view(vs) == Seq::<ValueModel>::empty());
    }
}

/// `entries_view` keeps the length and maps each entry to its model.
pub proof fn lemma_entries_view(es: Seq<CafMapEntry>)
    ensures
        entries_view(es).len() == es.len(),
        forall|i: int| 0 <= i < es.len() ==> #[trigger] entries_view(es)[i] == es[i]@,
    decreases es.len(),
{
    if es.len() > 0 {
        lemma_entries_view(es.drop_last());
        assert(entries_view(es) == entries_view(es.drop_last()).push(es.last()@));
    } else {
        assert(entries_view(es) == Seq::<MapEntryModel>::empty());
    }
}

/// The hex digit for a value below 16: `0`..`9`, `A`..`F`.
pub open spec fn hex_digit(d: int) -> u8 {
    if d < 10 {
        (48 + d) as u8
    } else {
        (55 + d) as u8
    }
}

/// The two hex digits of a byte.
pub open spec fn hex_pair(b: u8) -> Seq<u8> {
    seq![hex_digit(b as int / 16), hex_digit(b as int % 16)]
}

/// The text of a colour: `#`, the alpha pair where there is one, then red,
/// green and blue.
pub open spec fn color_text(color: HexColor) -> Seq<u8> {
    let alpha = match color.alpha {
        Some(a) => hex_pair(a),
        None => Seq::empty(),
    };
    seq![HASH] + alpha + hex_pair(color.red) + hex_pair(color.green) + hex_pair(color.blue)
}

/// The text of a unit.
pub open spec fn unit_text(val: ValKind) -> Seq<u8> {
    match val {
        ValKind::Auto => seq![97u8, 117, 116, 111],
        ValKind::Px => seq![112u8, 120],
        ValKind::Percent => seq![PERCENT],
        ValKind::Vw => seq![118u8, 119],
        ValKind::Vh => seq![118u8, 104],
        ValKind::VMin => seq![118u8, 109, 105, 110],
        ValKind::VMax => seq![118u8, 109, 97, 120],
    }
}

pub open spec fn true_text() -> Seq<u8> {
    seq![116u8, 114, 117, 101]
}

pub open spec fn false_text() -> Seq<u8> {
    seq![102u8, 97, 108, 115, 101]
}

pub open spec fn none_text() -> Seq<u8> {
    seq![110u8, 111, 110, 101]
}

/// The separator that is written in front of the entry at `index` of a
/// sequence where the entry has no fill of its own: nothing in front of the
/// first entry, one space in front of the others.
pub open spec fn separator(first: bool) -> Seq<u8> {
    if first {
        Seq::empty()
    } else {
        seq![SPACE]
    }
}

/// The text of a builtin without its fill.
pub open spec fn builtin_body(b: BuiltinModel) -> Seq<u8> {
    match b {
        BuiltinModel::Color { fill, color } => color_text(color),
        BuiltinModel::Val { fill, number, val } => (match number {
            Some(n) => n.original,
            None => Seq::empty(),
        }) + unit_text(val),
    }
}

pub open spec fn builtin_fill(b: BuiltinModel) -> Fill {
    match b {
        BuiltinModel::Color { fill, color } => fill,
        BuiltinModel::Val { fill, number, val } => fill,
    }
}

pub open spec fn variant_id(e: EnumVariantModel) -> IdentModel {
    match e {
        EnumVariantModel::Unit { id } => id,
        EnumVariantModel::Tuple { id, tuple } => id,
        EnumVariantModel::Array { id, array } => id,
        EnumVariantModel::Mapping { id, map } => id,
    }
}

/// The fill in front of a value.
pub open spec fn value_fill(v: ValueModel) -> Fill {
    match v {
        ValueModel::EnumVariant(e) => variant_id(e).fill,
        ValueModel::Builtin(b) => builtin_fill(b),
        ValueModel::Array(l) => l.start_fill,
        ValueModel::Tuple(l) => l.start_fill,
        ValueModel::Mapping(m) => m.start_fill,
        ValueModel::Number(n) => n.fill,
        ValueModel::Bool(b) => b.fill,
        ValueModel::Nothing(fill) => fill,
        ValueModel::String(s) => s.fill,
    }
}

/// The text of a value without the fill in front of it.
pub open spec fn value_body(v: ValueModel) -> Seq<u8>
    decreases v, 0int,
{
    match v {
        ValueModel::EnumVariant(e) => variant_body(e),
        ValueModel::Builtin(b) => builtin_body(b),
        ValueModel::Array(l) => list_body(l, LBRACKET, RBRACKET),
        ValueModel::Tuple(l) => list_body(l, LPAREN, RPAREN),
        ValueModel::Mapping(m) => map_body(m),
        ValueModel::Number(n) => n.number.original,
        ValueModel::Bool(b) => if b.value {
            true_text()
        } else {
            false_text()
        },
        ValueModel::Nothing(fill) => none_text(),
        ValueModel::String(s) => seq![QUOTE] + s.raw + seq![QUOTE],
    }
}

/// The text of a value: its fill, or `space` where it has none, and its body.
pub open spec fn value_text(v: ValueModel, space: Seq<u8>) -> Seq<u8>
    decreases v, 1int,
{
    fill_text_or(value_fill(v), space) + value_body(v)
}

/// The text of a variant without the fill in front of it: the name, and the
/// payload right behind it.
pub open spec fn variant_body(e: EnumVariantModel) -> Seq<u8>
    decreases e, 0int,
{
    match e {
        EnumVariantModel::Unit { id } => id.name,
        EnumVariantModel::Tuple { id, tuple } => id.name + fill_text(tuple.start_fill)
            + list_body(tuple, LPAREN, RPAREN),
        EnumVariantModel::Array { id, array } => id.name + fill_text(array.start_fill)
            + list_body(array, LBRACKET, RBRACKET),
        EnumVariantModel::Mapping { id, map } => id.name + fill_text(map.start_fill) + map_body(
            map,
        ),
    }
}

/// The text of an array or tuple from its opening to its closing delimiter.
pub open spec fn list_body(l: ListModel, open: u8, close: u8) -> Seq<u8>
    decreases l, 0int,
{
    seq![open] + values_text(l.entries, true) + fill_text(l.end_fill) + seq![close]
}

/// The texts of the values of a sequence, in order. A value without fill is
/// set off by the separator; `first` says whether the sequence starts the list.
pub open spec fn values_text(vs: Seq<ValueModel>, first: bool) -> Seq<u8>
    decreases vs, 0int,
{
    if vs.len() == 0 {
        Seq::empty()
    } else {
        values_text(vs.drop_last(), first) + value_text(
            vs.last(),
            separator(first && vs.len() == 1),
        )
    }
}

/// The text of a map from `{` to `}`.
pub open spec fn map_body(m: MapModel) -> Seq<u8>
    decreases m, 0int,
{
    seq![LBRACE] + entries_text(m.entries, true) + fill_text(m.end_fill) + seq![RBRACE]
}

/// The texts of the entries of a sequence, in order, set off like values.
pub open spec fn entries_text(es: Seq<MapEntryModel>, first: bool) -> Seq<u8>
    decreases es, 0int,
{
    if es.len() == 0 {
        Seq::empty()
    } else {
        entries_text(es.drop_last(), first) + entry_text(
            es.last(),
            separator(first && es.len() == 1),
        )
    }
}

/// The text of a map entry. A macro parameter has no text.
pub open spec fn entry_text(e: MapEntryModel, space: Seq<u8>) -> Seq<u8>
    decreases e, 0int,
{
    match e {
        MapEntryModel::KeyValue(kv) => key_value_text(kv, space),
        MapEntryModel::MacroParam => Seq::empty(),
    }
}

/// The text of a key, `:` and a value.
pub open spec fn key_value_text(kv: KeyValueModel, space: Seq<u8>) -> Seq<u8>
    decreases kv, 0int,
{
    key_text(kv.key, space) + fill_text(kv.semicolon_fill) + seq![COLON] + value_text(
        kv.value,
        Seq::empty(),
    )
}

/// The text of a key.
pub open spec fn key_text(k: MapKeyModel, space: Seq<u8>) -> Seq<u8>
    decreases k, 0int,
{
    match k {
        MapKeyModel::FieldName { fill, name } => fill_text_or(fill, space) + name,
        MapKeyModel::Value(v) => value_text(v, space),
    }
}

/// The text of an array or tuple with its fill.
pub open spec fn list_text(l: ListModel, open: u8, close: u8, space: Seq<u8>) -> Seq<u8> {
    fill_text_or(l.start_fill, space) + list_body(l, open, close)
}

/// The text of a map with its fill.
pub open spec fn map_text(m: MapModel, space: Seq<u8>) -> Seq<u8> {
    fill_text_or(m.start_fill, space) + map_body(m)
}

/// The text of a variant with its fill.
pub open spec fn variant_text(e: EnumVariantModel, space: Seq<u8>) -> Seq<u8> {
    fill_text_or(variant_id(e).fill, space) + variant_body(e)
}

} // verus!
