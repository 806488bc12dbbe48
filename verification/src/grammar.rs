//! The grammar of the format, stated as functions from the input and an
//! offset to what stands there.
//!
//! Every node kind has one function. It is handed the fill that was read in
//! front of the offset and answers in one of three ways: the node kind does
//! not start here (`Skip`), it starts here and is broken (`Fail`), or it
//! stands here (`Take`), with the fill read behind it and the offset behind
//! that fill.
use vstd::prelude::*;
use crate::bytes::{
    has_at, is_digit, is_lower, is_upper, COLON, HASH, LBRACE, LBRACKET, LPAREN, PERCENT, QUOTE,
    RBRACE, RBRACKET, RPAREN, UNDERSCORE,
};
use crate::fill::{fill_end, fill_segments};
use crate::json_number::json_number_text;
use crate::scan::{byte_at, class_at, is_number_start, number_end, run_end, string_end, ByteClass};
use crate::span::{SpanError, SpanErrorKind};
use crate::value::{
    false_text, none_text, true_text, unit_text, BoolModel, BuiltinModel, EnumVariantModel, Fill,
    HexColor, IdentModel, KeyValueModel, ListModel, MapEntryModel, MapKeyModel, MapModel,
    NumberModel, NumberValueModel, StringModel, ValKind, ValueModel,
};

verus! {

/// What stands at an offset, for one node kind.
pub enum Parsed<T> {
    /// The node kind does not start here. Nothing was read.
    Skip,
    /// The node kind starts here and is broken.
    Fail(SpanError),
    /// The node, the fill behind it, and the offset behind that fill.
    Take(T, Fill, int),
}

/// What stands at an offset, for a sequence of nodes of one kind.
pub enum Items<T> {
    /// One of the nodes is broken, or two of them stand with no fill between them.
    Fail(SpanError),
    /// The nodes, the fill behind the last of them, and the offset behind that fill.
    Done(Seq<T>, Fill, int),
}

/// The error for a missing byte at `offset`.
pub open spec fn char_error(offset: int) -> SpanError {
    SpanError { offset: offset as usize, kind: SpanErrorKind::Char }
}

/// The error for a broken rule at `offset`.
pub open spec fn verify_error(offset: int) -> SpanError {
    SpanError { offset: offset as usize, kind: SpanErrorKind::Verify }
}

/// The node that ends at `end`, with the fill behind it.
pub open spec fn take_at<T>(node: T, s: Seq<u8>, end: int) -> Parsed<T> {
    Parsed::Take(node, fill_segments(s, end), fill_end(s, end))
}

/// The same answer for a node wrapped by `f`.
pub open spec fn lift<A, B>(p: Parsed<A>, f: spec_fn(A) -> B) -> Parsed<B> {
    match p {
        Parsed::Skip => Parsed::Skip,
        Parsed::Fail(e) => Parsed::Fail(e),
        Parsed::Take(node, fill, next) => Parsed::Take(f(node), fill, next),
    }
}

/// Whether the word `lit` stands at `pos`: its bytes, and no identifier byte behind them.
pub open spec fn keyword_at(s: Seq<u8>, pos: int, lit: Seq<u8>) -> bool {
    has_at(s, pos, lit) && !class_at(s, pos + lit.len(), ByteClass::Ident)
}

/// `true` or `false`.
pub open spec fn spec_bool(s: Seq<u8>, pos: int, fill: Fill) -> Parsed<BoolModel> {
    if keyword_at(s, pos, true_text()) {
        take_at(BoolModel { fill, value: true }, s, pos + 4)
    } else if keyword_at(s, pos, false_text()) {
        take_at(BoolModel { fill, value: false }, s, pos + 5)
    } else {
        Parsed::Skip
    }
}

/// `none`.
pub open spec fn spec_none(s: Seq<u8>, pos: int, fill: Fill) -> Parsed<Fill> {
    if keyword_at(s, pos, none_text()) {
        take_at(fill, s, pos + 4)
    } else {
        Parsed::Skip
    }
}

/// A quoted string. Once the opening quote is read, a string that is not
/// closed, or a backslash that no escape follows, is an error at the quote.
pub open spec fn spec_string(s: Seq<u8>, pos: int, fill: Fill) -> Parsed<StringModel> {
    if !byte_at(s, pos, QUOTE) {
        Parsed::Skip
    } else {
        match string_end(s, pos + 1) {
            Some(end) => take_at(StringModel { fill, raw: s.subrange(pos + 1, end) }, s, end + 1),
            None => Parsed::Fail(verify_error(pos)),
        }
    }
}

/// The number whose text is `s[pos..end]`, or `None` where that text is not a JSON number.
pub open spec fn number_value(s: Seq<u8>, pos: int, end: int) -> Option<NumberValueModel> {
    match json_number_text(s.subrange(pos, end)) {
        Some(canonical) => Some(NumberValueModel { original: s.subrange(pos, end), canonical }),
        None => None,
    }
}

/// A number. Digits that do not make a JSON number are an error at their start.
pub open spec fn spec_number(s: Seq<u8>, pos: int, fill: Fill) -> Parsed<NumberModel> {
    if !is_number_start(s, pos) {
        Parsed::Skip
    } else {
        match number_value(s, pos, number_end(s, pos)) {
            Some(number) => take_at(NumberModel { fill, number }, s, number_end(s, pos)),
            None => Parsed::Fail(verify_error(pos)),
        }
    }
}

/// The value of a hex digit.
pub open spec fn hex_value(b: u8) -> int {
    if is_digit(b) {
        b - 48
    } else {
        b - 55
    }
}

/// The value of the two hex digits at `pos`.
pub open spec fn pair_value(s: Seq<u8>, pos: int) -> u8 {
    (hex_value(s[pos]) * 16 + hex_value(s[pos + 1])) as u8
}

/// A colour: `#` and six hex digits, or eight where the first two are the
/// alpha. Any other count of hex digits behind `#` is an error at the `#`.
pub open spec fn spec_color(s: Seq<u8>, pos: int, fill: Fill) -> Parsed<BuiltinModel> {
    if !byte_at(s, pos, HASH) {
        Parsed::Skip
    } else {
        let end = run_end(s, pos + 1, ByteClass::Hex);
        if end == pos + 7 {
            take_at(
                BuiltinModel::Color {
                    fill,
                    color: HexColor {
                        red: pair_value(s, pos + 1),
                        green: pair_value(s, pos + 3),
                        blue: pair_value(s, pos + 5),
                        alpha: None,
                    },
                },
                s,
                end,
            )
        } else if end == pos + 9 {
            take_at(
                BuiltinModel::Color {
                    fill,
                    color: HexColor {
                        red: pair_value(s, pos + 3),
                        green: pair_value(s, pos + 5),
                        blue: pair_value(s, pos + 7),
                        alpha: Some(pair_value(s, pos + 1)),
                    },
                },
                s,
                end,
            )
        } else {
            Parsed::Fail(verify_error(pos))
        }
    }
}

/// The unit that stands at `pos`, if any. `%` may be followed by anything;
/// the other units are words.
pub open spec fn spec_unit(s: Seq<u8>, pos: int) -> Option<ValKind> {
    if byte_at(s, pos, PERCENT) {
        Some(ValKind::Percent)
    } else if keyword_at(s, pos, unit_text(ValKind::Px)) {
        Some(ValKind::Px)
    } else if keyword_at(s, pos, unit_text(ValKind::Vw)) {
        Some(ValKind::Vw)
    } else if keyword_at(s, pos, unit_text(ValKind::Vh)) {
        Some(ValKind::Vh)
    } else if keyword_at(s, pos, unit_text(ValKind::VMin)) {
        Some(ValKind::VMin)
    } else if keyword_at(s, pos, unit_text(ValKind::VMax)) {
        Some(ValKind::VMax)
    } else {
        None
    }
}

/// A length: `auto`, or a number with a unit right behind it. A number
/// without a unit is no length.
pub open spec fn spec_val(s: Seq<u8>, pos: int, fill: Fill) -> Parsed<BuiltinModel> {
    if keyword_at(s, pos, unit_text(ValKind::Auto)) {
        take_at(BuiltinModel::Val { fill, number: None, val: ValKind::Auto }, s, pos + 4)
    } else if is_number_start(s, pos) {
        let end = number_end(s, pos);
        match spec_unit(s, end) {
            Some(val) => match number_value(s, pos, end) {
                Some(number) => take_at(
                    BuiltinModel::Val { fill, number: Some(number), val },
                    s,
                    end + unit_text(val).len(),
                ),
                None => Parsed::Fail(verify_error(pos)),
            },
            None => Parsed::Skip,
        }
    } else {
        Parsed::Skip
    }
}

/// A builtin: a colour or a length.
pub open spec fn spec_builtin(s: Seq<u8>, pos: int, fill: Fill) -> Parsed<BuiltinModel> {
    if byte_at(s, pos, HASH) {
        spec_color(s, pos, fill)
    } else {
        spec_val(s, pos, fill)
    }
}

/// Whether a field name starts at `pos`: a lower-case letter or `_`.
pub open spec fn is_field_start(s: Seq<u8>, pos: int) -> bool {
    0 <= pos < s.len() && (is_lower(s[pos]) || s[pos] == UNDERSCORE)
}

/// Whether a variant name starts at `pos`: an upper-case letter.
pub open spec fn is_variant_start(s: Seq<u8>, pos: int) -> bool {
    0 <= pos < s.len() && is_upper(s[pos])
}

/// A value. The node kinds are tried in a fixed order, and the first that
/// does not skip decides.
pub open spec fn spec_value(s: Seq<u8>, pos: int, fill: Fill) -> Parsed<ValueModel>
    decreases s.len() - pos, 10int,
{
    if pos < 0 || pos >= s.len() {
        Parsed::Skip
    } else if !(spec_variant(s, pos, fill) is Skip) {
        lift(spec_variant(s, pos, fill), |v: EnumVariantModel| ValueModel::EnumVariant(v))
    } else if !(spec_builtin(s, pos, fill) is Skip) {
        lift(spec_builtin(s, pos, fill), |v: BuiltinModel| ValueModel::Builtin(v))
    } else if !(spec_list(s, pos, fill, LBRACKET, RBRACKET) is Skip) {
        lift(spec_list(s, pos, fill, LBRACKET, RBRACKET), |v: ListModel| ValueModel::Array(v))
    } else if !(spec_list(s, pos, fill, LPAREN, RPAREN) is Skip) {
        lift(spec_list(s, pos, fill, LPAREN, RPAREN), |v: ListModel| ValueModel::Tuple(v))
    } else if !(spec_map(s, pos, fill) is Skip) {
        lift(spec_map(s, pos, fill), |v: MapModel| ValueModel::Mapping(v))
    } else if !(spec_number(s, pos, fill) is Skip) {
        lift(spec_number(s, pos, fill), |v: NumberModel| ValueModel::Number(v))
    } else if !(spec_bool(s, pos, fill) is Skip) {
        lift(spec_bool(s, pos, fill), |v: BoolModel| ValueModel::Bool(v))
    } else if !(spec_none(s, pos, fill) is Skip) {
        lift(spec_none(s, pos, fill), |v: Fill| ValueModel::Nothing(v))
    } else {
        lift(spec_string(s, pos, fill), |v: StringModel| ValueModel::String(v))
    }
}

/// An enum variant: a name that starts with an upper-case letter and, right
/// behind it, a tuple, an array or a map as its payload, or nothing.
pub open spec fn spec_variant(s: Seq<u8>, pos: int, fill: Fill) -> Parsed<EnumVariantModel>
    decreases s.len() - pos, 5int,
{
    if !is_variant_start(s, pos) {
        Parsed::Skip
    } else {
        let end = run_end(s, pos + 1, ByteClass::Ident);
        let id = IdentModel { fill, name: s.subrange(pos, end) };
        if end <= pos || end > s.len() {
            // Never: a run ends behind its start and inside the input.
            Parsed::Skip
        } else if byte_at(s, end, LPAREN) {
            lift(
                spec_list(s, end, Seq::empty(), LPAREN, RPAREN),
                |tuple: ListModel| EnumVariantModel::Tuple { id, tuple },
            )
        } else if byte_at(s, end, LBRACKET) {
            lift(
                spec_list(s, end, Seq::empty(), LBRACKET, RBRACKET),
                |array: ListModel| EnumVariantModel::Array { id, array },
            )
        } else if byte_at(s, end, LBRACE) {
            lift(
                spec_map(s, end, Seq::empty()),
                |map: MapModel| EnumVariantModel::Mapping { id, map },
            )
        } else {
            take_at(EnumVariantModel::Unit { id }, s, end)
        }
    }
}

/// An array or a tuple: the opening delimiter, values, the closing
/// delimiter. Once the opening delimiter is read, a missing closing
/// delimiter is an error at the offset where it should stand.
pub open spec fn spec_list(s: Seq<u8>, pos: int, fill: Fill, open: u8, close: u8) -> Parsed<
    ListModel,
>
    decreases s.len() - pos, 4int,
{
    if !byte_at(s, pos, open) {
        Parsed::Skip
    } else {
        let first = fill_end(s, pos + 1);
        if first <= pos || first > s.len() {
            // Never: fill ends at or behind its start and inside the input.
            Parsed::Skip
        } else {
            match spec_values(s, first, fill_segments(s, pos + 1), true, pos) {
                Items::Fail(e) => Parsed::Fail(e),
                Items::Done(entries, end_fill, end) => if byte_at(s, end, close) {
                    take_at(ListModel { start_fill: fill, entries, end_fill }, s, end + 1)
                } else {
                    Parsed::Fail(char_error(end))
                },
            }
        }
    }
}

/// The values of an array or tuple that starts at `start`. Every value but
/// the first must have fill in front of it: a value without is an error at
/// `start`.
pub open spec fn spec_values(s: Seq<u8>, pos: int, fill: Fill, first: bool, start: int) -> Items<
    ValueModel,
>
    decreases s.len() - pos, 20int,
{
    match spec_value(s, pos, fill) {
        Parsed::Skip => Items::Done(Seq::empty(), fill, pos),
        Parsed::Fail(e) => Items::Fail(e),
        Parsed::Take(value, next_fill, next) => if !first && fill.len() == 0 {
            Items::Fail(verify_error(start))
        } else if next <= pos || next > s.len() {
            // Never: a value that is taken is not empty.
            Items::Fail(verify_error(start))
        } else {
            match spec_values(s, next, next_fill, false, start) {
                Items::Fail(e) => Items::Fail(e),
                Items::Done(rest, end_fill, end) => Items::Done(seq![value] + rest, end_fill, end),
            }
        },
    }
}

/// A map: `{`, entries, `}`. Once the `{` is read, a missing `}` is an error
/// at the offset where it should stand.
pub open spec fn spec_map(s: Seq<u8>, pos: int, fill: Fill) -> Parsed<MapModel>
    decreases s.len() - pos, 4int,
{
    if !byte_at(s, pos, LBRACE) {
        Parsed::Skip
    } else {
        let first = fill_end(s, pos + 1);
        if first <= pos || first > s.len() {
            // Never: fill ends at or behind its start and inside the input.
            Parsed::Skip
        } else {
            match spec_entries(s, first, fill_segments(s, pos + 1), true, pos) {
                Items::Fail(e) => Parsed::Fail(e),
                Items::Done(entries, end_fill, end) => if byte_at(s, end, RBRACE) {
                    take_at(MapModel { start_fill: fill, entries, end_fill }, s, end + 1)
                } else {
                    Parsed::Fail(char_error(end))
                },
            }
        }
    }
}

/// The entries of a map that starts at `start`. Every entry but the first
/// must have fill in front of it: an entry without is an error at `start`.
pub open spec fn spec_entries(s: Seq<u8>, pos: int, fill: Fill, first: bool, start: int) -> Items<
    MapEntryModel,
>
    decreases s.len() - pos, 20int,
{
    match spec_entry(s, pos, fill) {
        Parsed::Skip => Items::Done(Seq::empty(), fill, pos),
        Parsed::Fail(e) => Items::Fail(e),
        Parsed::Take(entry, next_fill, next) => if !first && fill.len() == 0 {
            Items::Fail(verify_error(start))
        } else if next <= pos || next > s.len() {
            // Never: an entry that is taken is not empty.
            Items::Fail(verify_error(start))
        } else {
            match spec_entries(s, next, next_fill, false, start) {
                Items::Fail(e) => Items::Fail(e),
                Items::Done(rest, end_fill, end) => Items::Done(seq![entry] + rest, end_fill, end),
            }
        },
    }
}

/// A map entry: a key and its value. No syntax stands for a macro parameter.
pub open spec fn spec_entry(s: Seq<u8>, pos: int, fill: Fill) -> Parsed<MapEntryModel>
    decreases s.len() - pos, 15int,
{
    lift(spec_key_value(s, pos, fill), |kv: KeyValueModel| MapEntryModel::KeyValue(kv))
}

/// A key, `:` and a value. Once the key is read, a missing `:` is an error
/// at the offset where it should stand, and a missing value is an error at
/// the start of the key.
pub open spec fn spec_key_value(s: Seq<u8>, pos: int, fill: Fill) -> Parsed<KeyValueModel>
    decreases s.len() - pos, 14int,
{
    match spec_key(s, pos, fill) {
        Parsed::Skip => Parsed::Skip,
        Parsed::Fail(e) => Parsed::Fail(e),
        Parsed::Take(key, semicolon_fill, colon) => if !byte_at(s, colon, COLON) {
            Parsed::Fail(char_error(colon))
        } else {
            let at = fill_end(s, colon + 1);
            if at <= pos || at > s.len() {
                // Never: the `:` stands behind the key.
                Parsed::Fail(verify_error(pos))
            } else {
                match spec_value(s, at, fill_segments(s, colon + 1)) {
                    Parsed::Skip => Parsed::Fail(verify_error(pos)),
                    Parsed::Fail(e) => Parsed::Fail(e),
                    Parsed::Take(value, next_fill, next) => Parsed::Take(
                        KeyValueModel { key, semicolon_fill, value },
                        next_fill,
                        next,
                    ),
                }
            }
        },
    }
}

/// A key: a value where one stands, so that `true` and `none` are read as
/// what they are, else a field name.
pub open spec fn spec_key(s: Seq<u8>, pos: int, fill: Fill) -> Parsed<MapKeyModel>
    decreases s.len() - pos, 12int,
{
    if !(spec_value(s, pos, fill) is Skip) {
        lift(spec_value(s, pos, fill), |v: ValueModel| MapKeyModel::Value(v))
    } else if is_field_start(s, pos) {
        let end = run_end(s, pos, ByteClass::Snake);
        take_at(MapKeyModel::FieldName { fill, name: s.subrange(pos, end) }, s, end)
    } else {
        Parsed::Skip
    }
}

} // verus!
