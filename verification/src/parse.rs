//! The parser: for every node kind, a function that reads the node where
//! the grammar says one stands.
use vstd::prelude::*;
use crate::bytes::{
    copy_range, lower, starts_at, upper, COLON, HASH, LBRACE, LBRACKET, LPAREN, MINUS, PERCENT,
    QUOTE, RBRACE, RBRACKET, RPAREN, UNDERSCORE,
};
use crate::fill::{fill_end, fill_segments, fill_text, lemma_fill_parse, CafFill};
use crate::grammar::{
    keyword_at, number_value, pair_value, spec_bool, spec_builtin, spec_color, spec_entries,
    spec_entry, spec_key, spec_key_value, spec_list, spec_map, spec_none, spec_number, spec_string,
    spec_unit, spec_val, spec_value, spec_values, spec_variant, Items, Parsed,
};
use crate::json_number::number_from_text;
use crate::names::{ascii_as_str, name_new};
use crate::scan::{
    has_byte_at, has_class_at, in_class, is_number_start, lemma_number_end, lemma_run_end,
    scan_number, scan_run, scan_string, ByteClass,
};
use crate::soundness::{lemma_entry, lemma_key, lemma_value};
use crate::span::{span_char_error, span_verify_error, Span, SpanError};
use crate::value::{
    entries_view, false_text, none_text, true_text, unit_text, value_body, value_fill, values_view,
    CafArray, CafBool, CafBuiltin, CafEnumVariant, CafEnumVariantIdentifier, CafHexColor, CafMap,
    CafMapEntry, CafMapKey, CafMapKeyValue, CafNone, CafNumber, CafNumberValue, CafString, CafTuple,
    CafValue, CobMacroParam, Fill, HexColor, MapEntryModel, ValKind, ValueModel,
};

verus! {

/// The result of a parser for one node kind: the node if one stands at the
/// front of the input, with the fill behind it and the input behind that
/// fill; or no node, with the fill and the input as they were handed in.
pub type ParseResult<'a, T> = Result<(Option<T>, CafFill, Span<'a>), SpanError>;

/// Whether a parser's result is what the grammar says stands at the front of `content`.
pub open spec fn agrees<'a, T: View>(
    r: ParseResult<'a, T>,
    p: Parsed<T::V>,
    fill: Fill,
    content: Span<'a>,
) -> bool {
    match p {
        Parsed::Skip => match r {
            Ok((None, f, c)) => f@ == fill && c == content,
            _ => false,
        },
        Parsed::Fail(e) => match r {
            Err(found) => found == e,
            _ => false,
        },
        Parsed::Take(node, trailing, next) => match r {
            Ok((Some(n), f, c)) => n@ == node && f@ == trailing && c.data == content.data
                && c.offset == next && c.wf(),
            _ => false,
        },
    }
}

/// Whether the result of reading a sequence of values is what the grammar says.
pub open spec fn values_agree<'a>(
    r: Result<(Vec<CafValue>, CafFill, Span<'a>), SpanError>,
    items: Items<ValueModel>,
    content: Span<'a>,
) -> bool {
    match items {
        Items::Fail(e) => match r {
            Err(found) => found == e,
            _ => false,
        },
        Items::Done(vs, end_fill, end) => match r {
            Ok((entries, f, c)) => values_view(entries@) == vs && f@ == end_fill && c.data
                == content.data && c.offset == end && c.wf(),
            _ => false,
        },
    }
}

/// Whether the result of reading a sequence of map entries is what the grammar says.
pub open spec fn entries_agree<'a>(
    r: Result<(Vec<CafMapEntry>, CafFill, Span<'a>), SpanError>,
    items: Items<MapEntryModel>,
    content: Span<'a>,
) -> bool {
    match items {
        Items::Fail(e) => match r {
            Err(found) => found == e,
            _ => false,
        },
        Items::Done(es, end_fill, end) => match r {
            Ok((entries, f, c)) => entries_view(entries@) == es && f@ == end_fill && c.data
                == content.data && c.offset == end && c.wf(),
            _ => false,
        },
    }
}

/// The items read so far, put in front of what is read from here on.
pub open spec fn prepend<T>(read: Seq<T>, items: Items<T>) -> Items<T> {
    match items {
        Items::Fail(e) => Items::Fail(e),
        Items::Done(rest, end_fill, end) => Items::Done(read + rest, end_fill, end),
    }
}

/// Tests whether the word `lit` stands at `pos`.
fn keyword(data: &[u8], pos: usize, lit: &[u8]) -> (r: bool)
    requires
        pos <= data@.len(),
    ensures
        r == keyword_at(data@, pos as int, lit@),
{
    let len = data.len();
    assert(len == data@.len());
    if !starts_at(data, pos, lit) {
        return false;
    }
    !has_class_at(data, pos + lit.len(), ByteClass::Ident)
}

/// Reads the fill behind a node that ends at `end`.
fn finish<'a>(content: Span<'a>, end: usize) -> (r: (CafFill, Span<'a>))
    requires
        end <= content.data@.len(),
    ensures
        r.0@ == fill_segments(content.data@, end as int),
        r.1.data == content.data,
        r.1.offset == fill_end(content.data@, end as int),
        r.1.wf(),
{
    CafFill::parse(content.at(end))
}

/// Makes a name of the ASCII bytes `data[from..to]`.
fn read_name(data: &[u8], from: usize, to: usize) -> (r: smol_str::SmolStr)
    requires
        from <= to <= data@.len(),
        forall|i: int| from <= i < to ==> data@[i] < 128,
    ensures
        crate::names::name_bytes(r) == data@.subrange(from as int, to as int),
{
    let bytes = copy_range(data, from, to);
    name_new(ascii_as_str(bytes.as_slice()))
}

/// Reads the number whose text is `data[from..to]`.
fn read_number(data: &[u8], from: usize, to: usize) -> (r: Option<CafNumberValue>)
    requires
        from <= to <= data@.len(),
        forall|i: int| from <= i < to ==> data@[i] < 128,
    ensures
        match r {
            Some(n) => number_value(data@, from as int, to as int) == Some(n@),
            None => number_value(data@, from as int, to as int) is None,
        },
{
    let bytes = copy_range(data, from, to);
    let text = ascii_as_str(bytes.as_slice());
    match number_from_text(text) {
        Some(deserialized) => Some(CafNumberValue { original: name_new(text), deserialized }),
        None => None,
    }
}

/// The value of the two hex digits at `pos`.
fn read_pair(data: &[u8], pos: usize) -> (r: u8)
    requires
        pos + 1 < data@.len(),
        crate::bytes::is_hex(data@[pos as int]),
        crate::bytes::is_hex(data@[pos + 1]),
    ensures
        r == pair_value(data@, pos as int),
{
    let a = data[pos];
    let b = data[pos + 1];
    let high = if crate::bytes::digit(a) {
        a - 48
    } else {
        a - 55
    };
    let low = if crate::bytes::digit(b) {
        b - 48
    } else {
        b - 55
    };
    high * 16 + low
}

impl CobMacroParam {
    /// Reads nothing: no syntax stands for a macro parameter.
    pub fn try_parse<'a>(fill: CafFill, content: Span<'a>) -> (r: ParseResult<'a, CobMacroParam>)
        ensures
            r == Ok::<(Option<CobMacroParam>, CafFill, Span<'a>), SpanError>(
                (None, fill, content),
            ),
    {
        Ok((None, fill, content))
    }
}

impl CafBool {
    /// Reads `true` or `false`.
    pub fn try_parse<'a>(fill: CafFill, content: Span<'a>) -> (r: ParseResult<'a, CafBool>)
        requires
            content.wf(),
        ensures
            agrees(r, spec_bool(content.data@, content.offset as int, fill@), fill@, content),
    {
        let data = content.data;
        let pos = content.offset;
        let t = vec![116u8, 114, 117, 101];
        let f = vec![102u8, 97, 108, 115, 101];
        assert(t@ == true_text() && f@ == false_text());
        if keyword(data, pos, t.as_slice()) {
            let (next_fill, rest) = finish(content, pos + 4);
            Ok((Some(CafBool { fill, value: true }), next_fill, rest))
        } else if keyword(data, pos, f.as_slice()) {
            let (next_fill, rest) = finish(content, pos + 5);
            Ok((Some(CafBool { fill, value: false }), next_fill, rest))
        } else {
            Ok((None, fill, content))
        }
    }
}

impl CafNone {
    /// Reads `none`.
    pub fn try_parse<'a>(fill: CafFill, content: Span<'a>) -> (r: ParseResult<'a, CafNone>)
        requires
            content.wf(),
        ensures
            agrees(r, spec_none(content.data@, content.offset as int, fill@), fill@, content),
    {
        let data = content.data;
        let pos = content.offset;
        let n = vec![110u8, 111, 110, 101];
        assert(n@ == none_text());
        if keyword(data, pos, n.as_slice()) {
            let (next_fill, rest) = finish(content, pos + 4);
            Ok((Some(CafNone { fill }), next_fill, rest))
        } else {
            Ok((None, fill, content))
        }
    }
}

impl CafString {
    /// Reads a quoted string.
    pub fn try_parse<'a>(fill: CafFill, content: Span<'a>) -> (r: ParseResult<'a, CafString>)
        requires
            content.wf(),
        ensures
            agrees(r, spec_string(content.data@, content.offset as int, fill@), fill@, content),
    {
        let data = content.data;
        let pos = content.offset;
        if !has_byte_at(data, pos, QUOTE) {
            return Ok((None, fill, content));
        }
        match scan_string(data, pos + 1) {
            Some(end) => {
                let raw = copy_range(data, pos + 1, end);
                let (next_fill, rest) = finish(content, end + 1);
                Ok((Some(CafString { fill, raw }), next_fill, rest))
            },
            None => Err(span_verify_error(pos)),
        }
    }
}

impl CafNumber {
    /// Reads a number.
    pub fn try_parse<'a>(fill: CafFill, content: Span<'a>) -> (r: ParseResult<'a, CafNumber>)
        requires
            content.wf(),
        ensures
            agrees(r, spec_number(content.data@, content.offset as int, fill@), fill@, content),
    {
        let data = content.data;
        let pos = content.offset;
        if !number_start(data, pos) {
            return Ok((None, fill, content));
        }
        let end = scan_number(data, pos);
        proof {
            lemma_number_end(data@, pos as int);
        }
        match read_number(data, pos, end) {
            Some(number) => {
                let (next_fill, rest) = finish(content, end);
                Ok((Some(CafNumber { fill, number }), next_fill, rest))
            },
            None => Err(span_verify_error(pos)),
        }
    }
}

/// Tests whether a number starts at `pos`.
fn number_start(data: &[u8], pos: usize) -> (r: bool)
    requires
        pos <= data@.len(),
    ensures
        r == is_number_start(data@, pos as int),
{
    let len = data.len();
    assert(len == data@.len());
    has_class_at(data, pos, ByteClass::Digit) || (has_byte_at(data, pos, MINUS) && has_class_at(
        data,
        pos + 1,
        ByteClass::Digit,
    ))
}

impl CafHexColor {
    /// Reads a colour in hex notation.
    pub fn try_parse<'a>(fill: CafFill, content: Span<'a>) -> (r: Result<
        (Option<CafBuiltin>, CafFill, Span<'a>),
        SpanError,
    >)
        requires
            content.wf(),
        ensures
            agrees(r, spec_color(content.data@, content.offset as int, fill@), fill@, content),
    {
        let data = content.data;
        let pos = content.offset;
        if !has_byte_at(data, pos, HASH) {
            return Ok((None, fill, content));
        }
        let end = scan_run(data, pos + 1, ByteClass::Hex);
        proof {
            lemma_run_end(data@, pos + 1, ByteClass::Hex);
            assert forall|i: int| pos + 1 <= i < end implies crate::bytes::is_hex(
                #[trigger] data@[i],
            ) by {
                assert(in_class(ByteClass::Hex, data@[i]));
            }
        }
        if end - pos == 7 {
            let color = HexColor {
                red: read_pair(data, pos + 1),
                green: read_pair(data, pos + 3),
                blue: read_pair(data, pos + 5),
                alpha: None,
            };
            let (next_fill, rest) = finish(content, end);
            Ok((Some(CafBuiltin::Color(CafHexColor { fill, color })), next_fill, rest))
        } else if end - pos == 9 {
            let color = HexColor {
                red: read_pair(data, pos + 3),
                green: read_pair(data, pos + 5),
                blue: read_pair(data, pos + 7),
                alpha: Some(read_pair(data, pos + 1)),
            };
            let (next_fill, rest) = finish(content, end);
            Ok((Some(CafBuiltin::Color(CafHexColor { fill, color })), next_fill, rest))
        } else {
            Err(span_verify_error(pos))
        }
    }
}

/// Reads the unit that stands at `pos`, if any.
fn read_unit(data: &[u8], pos: usize) -> (r: Option<(ValKind, usize)>)
    requires
        pos <= data@.len(),
    ensures
        match r {
            Some((val, len)) => spec_unit(data@, pos as int) == Some(val) && len == unit_text(
                val,
            ).len() && pos + len <= data@.len(),
            None => spec_unit(data@, pos as int) is None,
        },
{
    let px = vec![112u8, 120];
    let vw = vec![118u8, 119];
    let vh = vec![118u8, 104];
    let vmin = vec![118u8, 109, 105, 110];
    let vmax = vec![118u8, 109, 97, 120];
    assert(px@ == unit_text(ValKind::Px) && vw@ == unit_text(ValKind::Vw) && vh@ == unit_text(
        ValKind::Vh,
    ) && vmin@ == unit_text(ValKind::VMin) && vmax@ == unit_text(ValKind::VMax));
    if has_byte_at(data, pos, PERCENT) {
        Some((ValKind::Percent, 1))
    } else if keyword(data, pos, px.as_slice()) {
        Some((ValKind::Px, 2))
    } else if keyword(data, pos, vw.as_slice()) {
        Some((ValKind::Vw, 2))
    } else if keyword(data, pos, vh.as_slice()) {
        Some((ValKind::Vh, 2))
    } else if keyword(data, pos, vmin.as_slice()) {
        Some((ValKind::VMin, 4))
    } else if keyword(data, pos, vmax.as_slice()) {
        Some((ValKind::VMax, 4))
    } else {
        None
    }
}

impl CafBuiltin {
    /// Reads a length: `auto`, or a number with a unit.
    fn try_parse_val<'a>(fill: CafFill, content: Span<'a>) -> (r: ParseResult<'a, CafBuiltin>)
        requires
            content.wf(),
        ensures
            agrees(r, spec_val(content.data@, content.offset as int, fill@), fill@, content),
    {
        let data = content.data;
        let pos = content.offset;
        let auto = vec![97u8, 117, 116, 111];
        assert(auto@ == unit_text(ValKind::Auto));
        if keyword(data, pos, auto.as_slice()) {
            let (next_fill, rest) = finish(content, pos + 4);
            return Ok(
                (Some(CafBuiltin::Val { fill, number: None, val: ValKind::Auto }), next_fill, rest),
            );
        }
        if !number_start(data, pos) {
            return Ok((None, fill, content));
        }
        let end = scan_number(data, pos);
        proof {
            lemma_number_end(data@, pos as int);
        }
        match read_unit(data, end) {
            Some((val, len)) => match read_number(data, pos, end) {
                Some(number) => {
                    let (next_fill, rest) = finish(content, end + len);
                    Ok((Some(CafBuiltin::Val { fill, number: Some(number), val }), next_fill, rest))
                },
                None => Err(span_verify_error(pos)),
            },
            None => Ok((None, fill, content)),
        }
    }

    /// Reads a builtin: a colour or a length.
    pub fn try_parse<'a>(fill: CafFill, content: Span<'a>) -> (r: ParseResult<'a, CafBuiltin>)
        requires
            content.wf(),
        ensures
            agrees(r, spec_builtin(content.data@, content.offset as int, fill@), fill@, content),
    {
        if has_byte_at(content.data, content.offset, HASH) {
            CafHexColor::try_parse(fill, content)
        } else {
            Self::try_parse_val(fill, content)
        }
    }
}

/// Reads an array or a tuple, whichever `open` and `close` delimit.
fn parse_list<'a>(fill: CafFill, content: Span<'a>, open: u8, close: u8) -> (r: ParseResult<
    'a,
    CafArray,
>)
    requires
        content.wf(),
    ensures
        agrees(
            r,
            spec_list(content.data@, content.offset as int, fill@, open, close),
            fill@,
            content,
        ),
    decreases content.data@.len() - content.offset, 4int,
{
    let data = content.data;
    let pos = content.offset;
    if !has_byte_at(data, pos, open) {
        return Ok((None, fill, content));
    }
    let (item_fill, at) = finish(content, pos + 1);
    proof {
        lemma_fill_parse(data@, pos + 1);
    }
    match parse_values(item_fill, at, pos) {
        Err(e) => Err(e),
        Ok((entries, end_fill, end)) => {
            if !has_byte_at(data, end.offset, close) {
                return Err(span_char_error(end.offset));
            }
            let (next_fill, rest) = finish(content, end.offset + 1);
            Ok((Some(CafArray { start_fill: fill, entries, end_fill }), next_fill, rest))
        },
    }
}

/// Reads the values of an array or tuple that starts at `start`.
fn parse_values<'a>(fill: CafFill, content: Span<'a>, start: usize) -> (r: Result<
    (Vec<CafValue>, CafFill, Span<'a>),
    SpanError,
>)
    requires
        content.wf(),
    ensures
        values_agree(
            r,
            spec_values(content.data@, content.offset as int, fill@, true, start as int),
            content,
        ),
    decreases content.data@.len() - content.offset, 20int,
{
    let ghost s = content.data@;
    let ghost whole = spec_values(s, content.offset as int, fill@, true, start as int);
    let mut entries: Vec<CafValue> = Vec::new();
    let mut item_fill = fill;
    let mut cur = content;
    proof {
        assert(values_view(entries@) =~= Seq::<ValueModel>::empty());
        assert(prepend(values_view(entries@), whole) == whole) by {
            match whole {
                Items::Done(rest, f, e) => {
                    assert(Seq::<ValueModel>::empty() + rest =~= rest);
                },
                _ => {},
            }
        }
    }
    loop
        invariant
            s == content.data@,
            cur.data == content.data,
            cur.wf(),
            content.offset <= cur.offset,
            whole == spec_values(s, content.offset as int, fill@, true, start as int),
            whole == prepend(
                values_view(entries@),
                spec_values(s, cur.offset as int, item_fill@, entries@.len() == 0, start as int),
            ),
        decreases s.len() - cur.offset,
    {
        let had_fill = !item_fill.is_empty();
        let ghost here = item_fill@;
        let ghost read = values_view(entries@);
        proof {
            lemma_value(s, cur.offset as int, here);
        }
        match CafValue::try_parse(item_fill, cur) {
            Err(e) => {
                return Err(e);
            },
            Ok((None, end_fill, after)) => {
                proof {
                    assert(read + Seq::<ValueModel>::empty() =~= read);
                }
                return Ok((entries, end_fill, after));
            },
            Ok((Some(value), next_fill, after)) => {
                if entries.len() > 0 && !had_fill {
                    return Err(span_verify_error(start));
                }
                proof {
                    let rest = spec_values(s, after.offset as int, next_fill@, false, start as int);
                    assert(entries@.push(value).drop_last() =~= entries@);
                    assert(values_view(entries@.push(value)) == read.push(value@));
                    match rest {
                        Items::Done(tail, f, e) => {
                            assert(read + (seq![value@] + tail) =~= read.push(value@) + tail);
                        },
                        _ => {},
                    }
                }
                entries.push(value);
                item_fill = next_fill;
                cur = after;
            },
        }
    }
}

impl CafArray {
    /// Reads `[` values `]`.
    pub fn try_parse<'a>(fill: CafFill, content: Span<'a>) -> (r: ParseResult<'a, CafArray>)
        requires
            content.wf(),
        ensures
            agrees(
                r,
                spec_list(content.data@, content.offset as int, fill@, LBRACKET, RBRACKET),
                fill@,
                content,
            ),
        decreases content.data@.len() - content.offset, 5int,
    {
        parse_list(fill, content, LBRACKET, RBRACKET)
    }
}

impl CafTuple {
    /// Reads `(` values `)`.
    pub fn try_parse<'a>(fill: CafFill, content: Span<'a>) -> (r: ParseResult<'a, CafTuple>)
        requires
            content.wf(),
        ensures
            agrees(
                r,
                spec_list(content.data@, content.offset as int, fill@, LPAREN, RPAREN),
                fill@,
                content,
            ),
        decreases content.data@.len() - content.offset, 5int,
    {
        match parse_list(fill, content, LPAREN, RPAREN) {
            Err(e) => Err(e),
            Ok((None, fill, rest)) => Ok((None, fill, rest)),
            Ok((Some(list), next_fill, rest)) => Ok((Some(tuple_of(list)), next_fill, rest)),
        }
    }
}

/// The tuple with the fill and the entries of `list`.
fn tuple_of(list: CafArray) -> (r: CafTuple)
    ensures
        r@ == list@,
{
    CafTuple { start_fill: list.start_fill, entries: list.entries, end_fill: list.end_fill }
}

impl CafEnumVariant {
    /// Reads an enum variant: its name and, right behind it, its payload.
    pub fn try_parse<'a>(fill: CafFill, content: Span<'a>) -> (r: ParseResult<'a, CafEnumVariant>)
        requires
            content.wf(),
        ensures
            agrees(r, spec_variant(content.data@, content.offset as int, fill@), fill@, content),
        decreases content.data@.len() - content.offset, 6int,
    {
        let data = content.data;
        let pos = content.offset;
        if !(pos < data.len() && upper(data[pos])) {
            return Ok((None, fill, content));
        }
        let end = scan_run(data, pos + 1, ByteClass::Ident);
        proof {
            lemma_run_end(data@, pos + 1, ByteClass::Ident);
            if end < data@.len() {
                lemma_fill_parse(data@, end + 1);
            }
            assert forall|i: int| pos <= i < end implies data@[i] < 128 by {
                if i > pos {
                    assert(in_class(ByteClass::Ident, data@[i]));
                }
            }
        }
        let id = CafEnumVariantIdentifier { fill, name: read_name(data, pos, end) };
        let none = CafFill::new();
        if has_byte_at(data, end, LPAREN) {
            match parse_list(none, content.at(end), LPAREN, RPAREN) {
                Err(e) => Err(e),
                Ok((Some(list), next_fill, rest)) => Ok(
                    (Some(CafEnumVariant::Tuple { id, tuple: tuple_of(list) }), next_fill, rest),
                ),
                Ok((None, _, _)) => {
                    // Never: the opening delimiter stands there.
                    assert(false);
                    Err(span_verify_error(pos))
                },
            }
        } else if has_byte_at(data, end, LBRACKET) {
            match parse_list(none, content.at(end), LBRACKET, RBRACKET) {
                Err(e) => Err(e),
                Ok((Some(array), next_fill, rest)) => Ok(
                    (Some(CafEnumVariant::Array { id, array }), next_fill, rest),
                ),
                Ok((None, _, _)) => {
                    // Never: the opening delimiter stands there.
                    assert(false);
                    Err(span_verify_error(pos))
                },
            }
        } else if has_byte_at(data, end, LBRACE) {
            match CafMap::try_parse(none, content.at(end)) {
                Err(e) => Err(e),
                Ok((Some(map), next_fill, rest)) => Ok(
                    (Some(CafEnumVariant::Mapping { id, map }), next_fill, rest),
                ),
                Ok((None, _, _)) => {
                    // Never: the opening delimiter stands there.
                    assert(false);
                    Err(span_verify_error(pos))
                },
            }
        } else {
            let (next_fill, rest) = finish(content, end);
            Ok((Some(CafEnumVariant::Unit { id }), next_fill, rest))
        }
    }
}

impl CafMapKey {
    /// Reads a key: a value where one stands, else a field name.
    pub fn try_parse<'a>(fill: CafFill, content: Span<'a>) -> (r: ParseResult<'a, CafMapKey>)
        requires
            content.wf(),
        ensures
            agrees(r, spec_key(content.data@, content.offset as int, fill@), fill@, content),
        decreases content.data@.len() - content.offset, 12int,
    {
        let data = content.data;
        let pos = content.offset;
        // Try to parse a value first in case it is a field-name-like value such as `true` or `none`.
        let fill = match CafValue::try_parse(fill, content) {
            Err(e) => {
                return Err(e);
            },
            Ok((Some(value), next_fill, rest)) => {
                return Ok((Some(CafMapKey::Value(value)), next_fill, rest));
            },
            Ok((None, fill, _)) => fill,
        };
        if !(pos < data.len() && (lower(data[pos]) || data[pos] == UNDERSCORE)) {
            return Ok((None, fill, content));
        }
        let end = scan_run(data, pos, ByteClass::Snake);
        proof {
            lemma_run_end(data@, pos as int, ByteClass::Snake);
            assert forall|i: int| pos <= i < end implies data@[i] < 128 by {
                assert(in_class(ByteClass::Snake, data@[i]));
            }
        }
        let name = read_name(data, pos, end);
        let (next_fill, rest) = finish(content, end);
        Ok((Some(CafMapKey::FieldName { fill, name }), next_fill, rest))
    }
}

impl CafMapKeyValue {
    /// Reads a key, `:` and a value.
    #[verifier::rlimit(50)]
    pub fn try_parse<'a>(fill: CafFill, content: Span<'a>) -> (r: ParseResult<'a, CafMapKeyValue>)
        requires
            content.wf(),
        ensures
            agrees(r, spec_key_value(content.data@, content.offset as int, fill@), fill@, content),
        decreases content.data@.len() - content.offset, 14int,
    {
        let data = content.data;
        let pos = content.offset;
        proof {
            lemma_key(data@, pos as int, fill@, Seq::empty());
        }
        let (key, semicolon_fill, colon) = match CafMapKey::try_parse(fill, content) {
            Err(e) => {
                return Err(e);
            },
            Ok((None, fill, rest)) => {
                return Ok((None, fill, content));
            },
            Ok((Some(key), semicolon_fill, rest)) => (key, semicolon_fill, rest),
        };
        if !has_byte_at(data, colon.offset, COLON) {
            return Err(span_char_error(colon.offset));
        }
        let (value_fill, at) = finish(content, colon.offset + 1);
        proof {
            lemma_fill_parse(data@, colon.offset + 1);
        }
        match CafValue::try_parse(value_fill, at) {
            Err(e) => Err(e),
            Ok((None, _, _)) => Err(span_verify_error(pos)),
            Ok((Some(value), next_fill, rest)) => Ok(
                (Some(CafMapKeyValue { key, semicolon_fill, value }), next_fill, rest),
            ),
        }
    }
}

impl CafMapEntry {
    /// Reads a map entry.
    pub fn try_parse<'a>(fill: CafFill, content: Span<'a>) -> (r: ParseResult<'a, CafMapEntry>)
        requires
            content.wf(),
        ensures
            agrees(r, spec_entry(content.data@, content.offset as int, fill@), fill@, content),
        decreases content.data@.len() - content.offset, 15int,
    {
        let fill = match CafMapKeyValue::try_parse(fill, content) {
            Err(e) => {
                return Err(e);
            },
            Ok((Some(kv), next_fill, rest)) => {
                return Ok((Some(CafMapEntry::KeyValue(kv)), next_fill, rest));
            },
            Ok((None, fill, _)) => fill,
        };
        match CobMacroParam::try_parse(fill, content) {
            Err(e) => Err(e),
            Ok((Some(param), next_fill, rest)) => {
                if !param.is_catch_all() {
                    return Err(span_verify_error(content.offset));
                }
                Ok((Some(CafMapEntry::MacroParam(param)), next_fill, rest))
            },
            Ok((None, fill, _)) => Ok((None, fill, content)),
        }
    }
}

/// Reads the entries of a map that starts at `start`.
fn parse_entries<'a>(fill: CafFill, content: Span<'a>, start: usize) -> (r: Result<
    (Vec<CafMapEntry>, CafFill, Span<'a>),
    SpanError,
>)
    requires
        content.wf(),
    ensures
        entries_agree(
            r,
            spec_entries(content.data@, content.offset as int, fill@, true, start as int),
            content,
        ),
    decreases content.data@.len() - content.offset, 20int,
{
    let ghost s = content.data@;
    let ghost whole = spec_entries(s, content.offset as int, fill@, true, start as int);
    let mut entries: Vec<CafMapEntry> = Vec::new();
    let mut item_fill = fill;
    let mut cur = content;
    proof {
        assert(entries_view(entries@) =~= Seq::<MapEntryModel>::empty());
        assert(prepend(entries_view(entries@), whole) == whole) by {
            match whole {
                Items::Done(rest, f, e) => {
                    assert(Seq::<MapEntryModel>::empty() + rest =~= rest);
                },
                _ => {},
            }
        }
    }
    loop
        invariant
            s == content.data@,
            cur.data == content.data,
            cur.wf(),
            content.offset <= cur.offset,
            whole == spec_entries(s, content.offset as int, fill@, true, start as int),
            whole == prepend(
                entries_view(entries@),
                spec_entries(s, cur.offset as int, item_fill@, entries@.len() == 0, start as int),
            ),
        decreases s.len() - cur.offset,
    {
        let had_fill = !item_fill.is_empty();
        let ghost here = item_fill@;
        let ghost read = entries_view(entries@);
        proof {
            lemma_entry(s, cur.offset as int, here, Seq::empty());
        }
        match CafMapEntry::try_parse(item_fill, cur) {
            Err(e) => {
                return Err(e);
            },
            Ok((None, end_fill, after)) => {
                proof {
                    assert(read + Seq::<MapEntryModel>::empty() =~= read);
                }
                return Ok((entries, end_fill, after));
            },
            Ok((Some(entry), next_fill, after)) => {
                if entries.len() > 0 && !had_fill {
                    return Err(span_verify_error(start));
                }
                proof {
                    let rest = spec_entries(
                        s,
                        after.offset as int,
                        next_fill@,
                        false,
                        start as int,
                    );
                    assert(entries@.push(entry).drop_last() =~= entries@);
                    assert(entries_view(entries@.push(entry)) == read.push(entry@));
                    match rest {
                        Items::Done(tail, f, e) => {
                            assert(read + (seq![entry@] + tail) =~= read.push(entry@) + tail);
                        },
                        _ => {},
                    }
                }
                entries.push(entry);
                item_fill = next_fill;
                cur = after;
            },
        }
    }
}

impl CafMap {
    /// Reads `{` entries `}`.
    pub fn try_parse<'a>(start_fill: CafFill, content: Span<'a>) -> (r: ParseResult<'a, CafMap>)
        requires
            content.wf(),
        ensures
            agrees(
                r,
                spec_map(content.data@, content.offset as int, start_fill@),
                start_fill@,
                content,
            ),
        decreases content.data@.len() - content.offset, 4int,
    {
        let data = content.data;
        let pos = content.offset;
        if !has_byte_at(data, pos, LBRACE) {
            return Ok((None, start_fill, content));
        }
        let (item_fill, at) = finish(content, pos + 1);
        proof {
            lemma_fill_parse(data@, pos + 1);
        }
        match parse_entries(item_fill, at, pos) {
            Err(e) => Err(e),
            Ok((entries, end_fill, end)) => {
                if !has_byte_at(data, end.offset, RBRACE) {
                    return Err(span_char_error(end.offset));
                }
                let (post_fill, rest) = finish(content, end.offset + 1);
                Ok((Some(CafMap { start_fill, entries, end_fill }), post_fill, rest))
            },
        }
    }
}

impl CafValue {
    /// Reads a value. The node kinds are tried in a fixed order; the first
    /// that stands here is read.
    pub fn try_parse<'a>(fill: CafFill, content: Span<'a>) -> (r: ParseResult<'a, CafValue>)
        requires
            content.wf(),
        ensures
            agrees(r, spec_value(content.data@, content.offset as int, fill@), fill@, content),
            r matches Ok((Some(value), trailing, rest)) ==> content.offset < rest.offset
                && value_fill(value@) == fill@ && value_body(value@) + fill_text(trailing@)
                == content.data@.subrange(content.offset as int, rest.offset as int),
        decreases content.data@.len() - content.offset, 10int,
    {
        proof {
            lemma_value(content.data@, content.offset as int, fill@);
        }
        if content.offset >= content.data.len() {
            return Ok((None, fill, content));
        }
        let fill = match CafEnumVariant::try_parse(fill, content) {
            Err(e) => {
                return Err(e);
            },
            Ok((Some(v), next_fill, rest)) => {
                return Ok((Some(CafValue::EnumVariant(v)), next_fill, rest));
            },
            Ok((None, fill, _)) => fill,
        };
        let fill = match CafBuiltin::try_parse(fill, content) {
            Err(e) => {
                return Err(e);
            },
            Ok((Some(v), next_fill, rest)) => {
                return Ok((Some(CafValue::Builtin(v)), next_fill, rest));
            },
            Ok((None, fill, _)) => fill,
        };
        let fill = match CafArray::try_parse(fill, content) {
            Err(e) => {
                return Err(e);
            },
            Ok((Some(v), next_fill, rest)) => {
                return Ok((Some(CafValue::Array(v)), next_fill, rest));
            },
            Ok((None, fill, _)) => fill,
        };
        let fill = match CafTuple::try_parse(fill, content) {
            Err(e) => {
                return Err(e);
            },
            Ok((Some(v), next_fill, rest)) => {
                return Ok((Some(CafValue::Tuple(v)), next_fill, rest));
            },
            Ok((None, fill, _)) => fill,
        };
        let fill = match CafMap::try_parse(fill, content) {
            Err(e) => {
                return Err(e);
            },
            Ok((Some(v), next_fill, rest)) => {
                return Ok((Some(CafValue::Mapping(v)), next_fill, rest));
            },
            Ok((None, fill, _)) => fill,
        };
        let fill = match CafNumber::try_parse(fill, content) {
            Err(e) => {
                return Err(e);
            },
            Ok((Some(v), next_fill, rest)) => {
                return Ok((Some(CafValue::Number(v)), next_fill, rest));
            },
            Ok((None, fill, _)) => fill,
        };
        let fill = match CafBool::try_parse(fill, content) {
            Err(e) => {
                return Err(e);
            },
            Ok((Some(v), next_fill, rest)) => {
                return Ok((Some(CafValue::Bool(v)), next_fill, rest));
            },
            Ok((None, fill, _)) => fill,
        };
        let fill = match CafNone::try_parse(fill, content) {
            Err(e) => {
                return Err(e);
            },
            Ok((Some(v), next_fill, rest)) => {
                return Ok((Some(CafValue::Nothing(v)), next_fill, rest));
            },
            Ok((None, fill, _)) => fill,
        };
        match CafString::try_parse(fill, content) {
            Err(e) => Err(e),
            Ok((Some(v), next_fill, rest)) => Ok((Some(CafValue::String(v)), next_fill, rest)),
            Ok((None, fill, rest)) => Ok((None, fill, content)),
        }
    }
}

} // verus!
