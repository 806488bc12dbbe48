//! What the grammar reads is what the writer writes: for every node that the
//! grammar takes, the text of the node and of the fill behind it is exactly
//! the stretch of input that was read.
use vstd::prelude::*;
use crate::bytes::{
    has_at, is_hex, COLON, HASH, LBRACE, LBRACKET, LPAREN, QUOTE, RBRACE, RBRACKET, RPAREN,
};
use crate::fill::{fill_end, fill_segments, fill_text, fill_text_or, lemma_fill_parse};
use crate::grammar::{
    hex_value, is_field_start, is_variant_start, keyword_at, pair_value, spec_bool, spec_builtin,
    spec_entries, spec_entry, spec_key, spec_key_value, spec_list, spec_map, spec_none, spec_number,
    spec_string, spec_unit, spec_value, spec_values, spec_variant, Items, Parsed,
};
use crate::scan::{
    byte_at, is_number_start, lemma_number_end, lemma_run_end, lemma_string_end, number_end,
    run_end, string_end, ByteClass,
};
use crate::value::{
    builtin_body, builtin_fill, entries_text, entry_text, false_text, hex_digit, hex_pair, key_text,
    key_value_text, list_body, map_body, none_text, separator, true_text, unit_text, value_body,
    value_fill, value_text, values_text, variant_body, variant_id, Fill, KeyValueModel,
    MapEntryModel, MapKeyModel, ValKind, ValueModel,
};

verus! {

/// A stretch of input is the stretch up to any offset inside it, followed by the rest.
pub proof fn lemma_split(s: Seq<u8>, a: int, b: int, c: int)
    requires
        0 <= a <= b <= c <= s.len(),
    ensures
        s.subrange(a, c) == s.subrange(a, b) + s.subrange(b, c),
{
    assert(s.subrange(a, c) =~= s.subrange(a, b) + s.subrange(b, c));
}

/// The text of the first value of a sequence comes first.
pub proof fn lemma_values_text_front(v: ValueModel, rest: Seq<ValueModel>, first: bool)
    ensures
        values_text(seq![v] + rest, first) == value_text(v, separator(first)) + values_text(
            rest,
            false,
        ),
    decreases rest.len(),
{
    let all = seq![v] + rest;
    if rest.len() == 0 {
        assert(all.drop_last() =~= Seq::<ValueModel>::empty());
        assert(values_text(all.drop_last(), first) =~= Seq::<u8>::empty());
        assert(values_text(rest, false) =~= Seq::<u8>::empty());
        assert(all.last() == v);
        assert(values_text(all, first) == values_text(all.drop_last(), first) + value_text(
            all.last(),
            separator(first && all.len() == 1),
        ));
        assert(values_text(all, first) =~= value_text(v, separator(first)) + values_text(
            rest,
            false,
        ));
    } else {
        lemma_values_text_front(v, rest.drop_last(), first);
        assert(all.drop_last() =~= seq![v] + rest.drop_last());
        assert(all.last() == rest.last());
        assert(values_text(all, first) == values_text(all.drop_last(), first) + value_text(
            all.last(),
            separator(first && all.len() == 1),
        ));
        assert(values_text(rest, false) == values_text(rest.drop_last(), false) + value_text(
            rest.last(),
            separator(false && rest.len() == 1),
        ));
        assert(values_text(all, first) =~= value_text(v, separator(first)) + values_text(
            rest,
            false,
        ));
    }
}

/// The text of the first entry of a sequence comes first.
pub proof fn lemma_entries_text_front(e: MapEntryModel, rest: Seq<MapEntryModel>, first: bool)
    ensures
        entries_text(seq![e] + rest, first) == entry_text(e, separator(first)) + entries_text(
            rest,
            false,
        ),
    decreases rest.len(),
{
    let all = seq![e] + rest;
    if rest.len() == 0 {
        assert(all.drop_last() =~= Seq::<MapEntryModel>::empty());
        assert(entries_text(all.drop_last(), first) =~= Seq::<u8>::empty());
        assert(entries_text(rest, false) =~= Seq::<u8>::empty());
        assert(all.last() == e);
        assert(entries_text(all, first) == entries_text(all.drop_last(), first) + entry_text(
            all.last(),
            separator(first && all.len() == 1),
        ));
        assert(entries_text(all, first) =~= entry_text(e, separator(first)) + entries_text(
            rest,
            false,
        ));
    } else {
        lemma_entries_text_front(e, rest.drop_last(), first);
        assert(all.drop_last() =~= seq![e] + rest.drop_last());
        assert(all.last() == rest.last());
        assert(entries_text(all, first) == entries_text(all.drop_last(), first) + entry_text(
            all.last(),
            separator(first && all.len() == 1),
        ));
        assert(entries_text(rest, false) == entries_text(rest.drop_last(), false) + entry_text(
            rest.last(),
            separator(false && rest.len() == 1),
        ));
        assert(entries_text(all, first) =~= entry_text(e, separator(first)) + entries_text(
            rest,
            false,
        ));
    }
}

/// The two hex digits of the value of a pair of hex digits are that pair.
pub proof fn lemma_hex_pair(s: Seq<u8>, pos: int)
    requires
        0 <= pos,
        pos + 1 < s.len(),
        is_hex(s[pos]),
        is_hex(s[pos + 1]),
    ensures
        hex_pair(pair_value(s, pos)) == s.subrange(pos, pos + 2),
{
    let a = hex_value(s[pos]);
    let b = hex_value(s[pos + 1]);
    assert(0 <= a < 16 && 0 <= b < 16);
    assert((a * 16 + b) / 16 == a && (a * 16 + b) % 16 == b);
    assert(hex_digit(a) == s[pos]);
    assert(hex_digit(b) == s[pos + 1]);
    assert(hex_pair(pair_value(s, pos)) =~= s.subrange(pos, pos + 2));
}

/// What a taken node of a leaf kind states: where it ends, and that its text
/// and the fill behind it are what was read.
pub open spec fn reads(s: Seq<u8>, pos: int, body: Seq<u8>, trailing: Fill, next: int) -> bool {
    &&& 0 <= pos < next <= s.len()
    &&& body + fill_text(trailing) == s.subrange(pos, next)
}

/// A node whose body is `s[pos..end]`, taken with the fill behind it.
pub proof fn lemma_take_at(s: Seq<u8>, pos: int, end: int)
    requires
        0 <= pos < end <= s.len(),
    ensures
        reads(s, pos, s.subrange(pos, end), fill_segments(s, end), fill_end(s, end)),
{
    lemma_fill_parse(s, end);
    lemma_split(s, pos, end, fill_end(s, end));
}

/// A taken builtin reads its own text.
pub proof fn lemma_builtin(s: Seq<u8>, pos: int, fill: Fill)
    requires
        0 <= pos <= s.len(),
    ensures
        spec_builtin(s, pos, fill) matches Parsed::Take(b, trailing, next) ==> builtin_fill(b)
            == fill && reads(s, pos, builtin_body(b), trailing, next),
{
    match spec_builtin(s, pos, fill) {
        Parsed::Take(b, trailing, next) => {
            if byte_at(s, pos, HASH) {
                lemma_run_end(s, pos + 1, ByteClass::Hex);
                let end = run_end(s, pos + 1, ByteClass::Hex);
                lemma_take_at(s, pos, end);
                assert forall|i: int| pos + 1 <= i < end implies is_hex(#[trigger] s[i]) by {}
                if end == pos + 7 {
                    lemma_hex_pair(s, pos + 1);
                    lemma_hex_pair(s, pos + 3);
                    lemma_hex_pair(s, pos + 5);
                    assert(builtin_body(b) =~= s.subrange(pos, end));
                } else {
                    lemma_hex_pair(s, pos + 1);
                    lemma_hex_pair(s, pos + 3);
                    lemma_hex_pair(s, pos + 5);
                    lemma_hex_pair(s, pos + 7);
                    assert(builtin_body(b) =~= s.subrange(pos, end));
                }
            } else if keyword_at(s, pos, unit_text(ValKind::Auto)) {
                lemma_take_at(s, pos, pos + 4);
                assert(builtin_body(b) =~= s.subrange(pos, pos + 4));
            } else {
                lemma_number_end(s, pos);
                let end = number_end(s, pos);
                let val = spec_unit(s, end)->Some_0;
                let len = unit_text(val).len() as int;
                assert(has_at(s, end, unit_text(val))) by {
                    if byte_at(s, end, crate::bytes::PERCENT) {
                        assert(s.subrange(end, end + 1) =~= unit_text(ValKind::Percent));
                    }
                }
                lemma_take_at(s, pos, end + len);
                lemma_split(s, pos, end, end + len);
                assert(builtin_body(b) =~= s.subrange(pos, end + len));
            }
        },
        _ => {},
    }
}

/// A taken number, word or string reads its own text.
pub proof fn lemma_leaves(s: Seq<u8>, pos: int, fill: Fill)
    requires
        0 <= pos <= s.len(),
    ensures
        spec_number(s, pos, fill) matches Parsed::Take(n, trailing, next) ==> n.fill == fill
            && reads(s, pos, n.number.original, trailing, next),
        spec_bool(s, pos, fill) matches Parsed::Take(b, trailing, next) ==> b.fill == fill
            && reads(s, pos, if b.value {
            true_text()
        } else {
            false_text()
        }, trailing, next),
        spec_none(s, pos, fill) matches Parsed::Take(f, trailing, next) ==> f == fill && reads(
            s,
            pos,
            none_text(),
            trailing,
            next,
        ),
        spec_string(s, pos, fill) matches Parsed::Take(st, trailing, next) ==> st.fill == fill
            && reads(s, pos, seq![QUOTE] + st.raw + seq![QUOTE], trailing, next),
{
    if is_number_start(s, pos) {
        lemma_number_end(s, pos);
        lemma_take_at(s, pos, number_end(s, pos));
    }
    if keyword_at(s, pos, true_text()) {
        lemma_take_at(s, pos, pos + 4);
    } else if keyword_at(s, pos, false_text()) {
        lemma_take_at(s, pos, pos + 5);
    }
    if keyword_at(s, pos, none_text()) {
        lemma_take_at(s, pos, pos + 4);
    }
    match spec_string(s, pos, fill) {
        Parsed::Take(st, trailing, next) => {
            lemma_string_end(s, pos + 1);
            let end = string_end(s, pos + 1)->Some_0;
            lemma_take_at(s, pos, end + 1);
            assert(seq![QUOTE] + st.raw + seq![QUOTE] =~= s.subrange(pos, end + 1));
        },
        _ => {},
    }
}

/// A taken value reads its own text: it carries the fill that stood in front
/// of it, it is not empty, and its body followed by the text of the fill
/// behind it is the stretch of input from its start to where reading goes on.
pub proof fn lemma_value(s: Seq<u8>, pos: int, fill: Fill)
    requires
        0 <= pos <= s.len(),
    ensures
        spec_value(s, pos, fill) matches Parsed::Take(v, trailing, next) ==> value_fill(v)
            == fill && reads(s, pos, value_body(v), trailing, next),
    decreases s.len() - pos, 10int,
{
    if pos >= s.len() {
    } else if !(spec_variant(s, pos, fill) is Skip) {
        lemma_variant(s, pos, fill);
    } else if !(spec_builtin(s, pos, fill) is Skip) {
        lemma_builtin(s, pos, fill);
    } else if !(spec_list(s, pos, fill, LBRACKET, RBRACKET) is Skip) {
        lemma_list(s, pos, fill, LBRACKET, RBRACKET);
    } else if !(spec_list(s, pos, fill, LPAREN, RPAREN) is Skip) {
        lemma_list(s, pos, fill, LPAREN, RPAREN);
    } else if !(spec_map(s, pos, fill) is Skip) {
        lemma_map(s, pos, fill);
    } else {
        lemma_leaves(s, pos, fill);
    }
}

/// A taken variant reads its own text.
pub proof fn lemma_variant(s: Seq<u8>, pos: int, fill: Fill)
    requires
        0 <= pos <= s.len(),
    ensures
        spec_variant(s, pos, fill) matches Parsed::Take(e, trailing, next) ==> variant_id(e).fill
            == fill && reads(s, pos, variant_body(e), trailing, next),
    decreases s.len() - pos, 5int,
{
    if is_variant_start(s, pos) {
        lemma_run_end(s, pos + 1, ByteClass::Ident);
        let end = run_end(s, pos + 1, ByteClass::Ident);
        let name = s.subrange(pos, end);
        match spec_variant(s, pos, fill) {
            Parsed::Take(e, trailing, next) => {
                if byte_at(s, end, LPAREN) {
                    lemma_list(s, end, Seq::empty(), LPAREN, RPAREN);
                    let l = e->Tuple_tuple;
                    lemma_split(s, pos, end, next);
                    assert(fill_text(l.start_fill) =~= Seq::<u8>::empty());
                    assert(variant_body(e) + fill_text(trailing) =~= name + (list_body(
                        l,
                        LPAREN,
                        RPAREN,
                    ) + fill_text(trailing)));
                } else if byte_at(s, end, LBRACKET) {
                    lemma_list(s, end, Seq::empty(), LBRACKET, RBRACKET);
                    let l = e->Array_array;
                    lemma_split(s, pos, end, next);
                    assert(fill_text(l.start_fill) =~= Seq::<u8>::empty());
                    assert(variant_body(e) + fill_text(trailing) =~= name + (list_body(
                        l,
                        LBRACKET,
                        RBRACKET,
                    ) + fill_text(trailing)));
                } else if byte_at(s, end, LBRACE) {
                    lemma_map(s, end, Seq::empty());
                    let m = e->Mapping_map;
                    lemma_split(s, pos, end, next);
                    assert(fill_text(m.start_fill) =~= Seq::<u8>::empty());
                    assert(variant_body(e) + fill_text(trailing) =~= name + (map_body(m)
                        + fill_text(trailing)));
                } else {
                    lemma_take_at(s, pos, end);
                }
            },
            _ => {},
        }
    }
}

/// A taken array or tuple reads its own text.
pub proof fn lemma_list(s: Seq<u8>, pos: int, fill: Fill, open: u8, close: u8)
    requires
        0 <= pos <= s.len(),
    ensures
        spec_list(s, pos, fill, open, close) matches Parsed::Take(l, trailing, next)
            ==> l.start_fill == fill && reads(s, pos, list_body(l, open, close), trailing, next),
    decreases s.len() - pos, 4int,
{
    if byte_at(s, pos, open) {
        lemma_fill_parse(s, pos + 1);
        let first = fill_end(s, pos + 1);
        let first_fill = fill_segments(s, pos + 1);
        lemma_values(s, first, first_fill, true, pos);
        match spec_list(s, pos, fill, open, close) {
            Parsed::Take(l, trailing, next) => {
                let end = spec_values(s, first, first_fill, true, pos)->Done_2;
                lemma_fill_parse(s, end + 1);
                assert(s.subrange(pos, next) =~= seq![open] + (s.subrange(pos + 1, first)
                    + s.subrange(first, end)) + seq![close] + s.subrange(end + 1, next));
                assert(list_body(l, open, close) + fill_text(trailing) =~= seq![open] + (
                values_text(l.entries, true) + fill_text(l.end_fill)) + seq![close] + fill_text(
                    trailing,
                ));
            },
            _ => {},
        }
    }
}

/// The values taken for a list read their own text: the text of the fill in
/// front of them and the stretch of input read are the texts of the values
/// and of the fill behind the last.
pub proof fn lemma_values(s: Seq<u8>, pos: int, fill: Fill, first: bool, start: int)
    requires
        0 <= pos <= s.len(),
    ensures
        spec_values(s, pos, fill, first, start) matches Items::Done(vs, end_fill, end) ==> pos
            <= end <= s.len() && fill_text(fill) + s.subrange(pos, end) == values_text(vs, first)
            + fill_text(end_fill),
    decreases s.len() - pos, 20int,
{
    lemma_value(s, pos, fill);
    match spec_values(s, pos, fill, first, start) {
        Items::Done(vs, end_fill, end) => {
            match spec_value(s, pos, fill) {
                Parsed::Take(v, next_fill, next) => {
                    lemma_values(s, next, next_fill, false, start);
                    let rest = spec_values(s, next, next_fill, false, start)->Done_0;
                    lemma_values_text_front(v, rest, first);
                    lemma_split(s, pos, next, end);
                    assert(fill_text_or(fill, separator(first)) == fill_text(fill)) by {
                        if fill.len() == 0 {
                            assert(fill_text(fill) =~= Seq::<u8>::empty());
                        }
                    }
                    assert(fill_text(fill) + s.subrange(pos, end) =~= fill_text(fill) + (
                    value_body(v) + fill_text(next_fill)) + s.subrange(next, end));
                    assert(values_text(vs, first) + fill_text(end_fill) =~= fill_text(fill)
                        + value_body(v) + (values_text(rest, false) + fill_text(end_fill)));
                    assert(fill_text(fill) + (value_body(v) + fill_text(next_fill)) + s.subrange(
                        next,
                        end,
                    ) =~= fill_text(fill) + value_body(v) + (fill_text(next_fill) + s.subrange(
                        next,
                        end,
                    )));
                },
                _ => {
                    assert(s.subrange(pos, pos) =~= Seq::<u8>::empty());
                    assert(values_text(vs, first) =~= Seq::<u8>::empty());
                    assert(fill_text(fill) + s.subrange(pos, end) =~= values_text(vs, first)
                        + fill_text(end_fill));
                },
            }
        },
        _ => {},
    }
}

/// A taken map reads its own text.
pub proof fn lemma_map(s: Seq<u8>, pos: int, fill: Fill)
    requires
        0 <= pos <= s.len(),
    ensures
        spec_map(s, pos, fill) matches Parsed::Take(m, trailing, next) ==> m.start_fill == fill
            && reads(s, pos, map_body(m), trailing, next),
    decreases s.len() - pos, 4int,
{
    if byte_at(s, pos, LBRACE) {
        lemma_fill_parse(s, pos + 1);
        let first = fill_end(s, pos + 1);
        let first_fill = fill_segments(s, pos + 1);
        lemma_entries(s, first, first_fill, true, pos);
        match spec_map(s, pos, fill) {
            Parsed::Take(m, trailing, next) => {
                let end = spec_entries(s, first, first_fill, true, pos)->Done_2;
                lemma_fill_parse(s, end + 1);
                assert(s.subrange(pos, next) =~= seq![LBRACE] + (s.subrange(pos + 1, first)
                    + s.subrange(first, end)) + seq![RBRACE] + s.subrange(end + 1, next));
                assert(map_body(m) + fill_text(trailing) =~= seq![LBRACE] + (entries_text(
                    m.entries,
                    true,
                ) + fill_text(m.end_fill)) + seq![RBRACE] + fill_text(trailing));
            },
            _ => {},
        }
    }
}

/// The entries taken for a map read their own text.
pub proof fn lemma_entries(s: Seq<u8>, pos: int, fill: Fill, first: bool, start: int)
    requires
        0 <= pos <= s.len(),
    ensures
        spec_entries(s, pos, fill, first, start) matches Items::Done(es, end_fill, end) ==> pos
            <= end <= s.len() && fill_text(fill) + s.subrange(pos, end) == entries_text(
            es,
            first,
        ) + fill_text(end_fill),
    decreases s.len() - pos, 20int,
{
    lemma_entry(s, pos, fill, separator(first));
    match spec_entries(s, pos, fill, first, start) {
        Items::Done(es, end_fill, end) => {
            match spec_entry(s, pos, fill) {
                Parsed::Take(e, next_fill, next) => {
                    lemma_entries(s, next, next_fill, false, start);
                    let rest = spec_entries(s, next, next_fill, false, start)->Done_0;
                    lemma_entries_text_front(e, rest, first);
                    lemma_split(s, pos, next, end);
                    assert(fill_text_or(fill, separator(first)) == fill_text(fill)) by {
                        if fill.len() == 0 {
                            assert(fill_text(fill) =~= Seq::<u8>::empty());
                        }
                    }
                    assert(fill_text(fill) + s.subrange(pos, end) =~= (fill_text(fill)
                        + s.subrange(pos, next)) + s.subrange(next, end));
                    assert(entries_text(es, first) + fill_text(end_fill) =~= entry_text(
                        e,
                        separator(first),
                    ) + (entries_text(rest, false) + fill_text(end_fill)));
                    assert((entry_text(e, separator(first)) + fill_text(next_fill)) + s.subrange(
                        next,
                        end,
                    ) =~= entry_text(e, separator(first)) + (fill_text(next_fill) + s.subrange(
                        next,
                        end,
                    )));
                },
                _ => {
                    assert(s.subrange(pos, pos) =~= Seq::<u8>::empty());
                    assert(entries_text(es, first) =~= Seq::<u8>::empty());
                    assert(fill_text(fill) + s.subrange(pos, end) =~= entries_text(es, first)
                        + fill_text(end_fill));
                },
            }
        },
        _ => {},
    }
}

/// A taken entry reads its own text, whatever separator would stand in for
/// the fill in front of it.
pub proof fn lemma_entry(s: Seq<u8>, pos: int, fill: Fill, space: Seq<u8>)
    requires
        0 <= pos <= s.len(),
    ensures
        spec_entry(s, pos, fill) matches Parsed::Take(e, trailing, next) ==> 0 <= pos < next
            <= s.len() && entry_text(e, space) + fill_text(trailing) == fill_text_or(fill, space)
            + s.subrange(pos, next),
    decreases s.len() - pos, 15int,
{
    lemma_key_value(s, pos, fill, space);
}

/// The text of a key with its value, from what was read for each part.
proof fn lemma_key_value_text(
    s: Seq<u8>,
    pos: int,
    colon: int,
    at: int,
    next: int,
    lead: Seq<u8>,
    space: Seq<u8>,
    kv: KeyValueModel,
    trailing: Fill,
)
    requires
        0 <= pos <= colon < at <= next <= s.len(),
        s[colon] == COLON,
        key_text(kv.key, space) + fill_text(kv.semicolon_fill) == lead + s.subrange(pos, colon),
        fill_text(value_fill(kv.value)) == s.subrange(colon + 1, at),
        value_body(kv.value) + fill_text(trailing) == s.subrange(at, next),
    ensures
        key_value_text(kv, space) + fill_text(trailing) == lead + s.subrange(pos, next),
{
    let key = key_text(kv.key, space) + fill_text(kv.semicolon_fill);
    let body = value_body(kv.value);
    let a = s.subrange(pos, colon);
    let b = s.subrange(colon + 1, at);
    let d = s.subrange(at, next);
    assert(fill_text_or(value_fill(kv.value), Seq::empty()) == b) by {
        if value_fill(kv.value).len() == 0 {
            assert(fill_text(value_fill(kv.value)) =~= Seq::<u8>::empty());
        }
    }
    assert(value_text(kv.value, Seq::empty()) == b + body);
    assert(key_value_text(kv, space) == key + seq![COLON] + (b + body));
    assert((key + seq![COLON] + (b + body)) + fill_text(trailing) =~= lead + (a + seq![COLON] + b
        + d));
    assert(s.subrange(pos, next) =~= a + seq![COLON] + b + d);
}

/// A taken key with its value reads its own text.
pub proof fn lemma_key_value(s: Seq<u8>, pos: int, fill: Fill, space: Seq<u8>)
    requires
        0 <= pos <= s.len(),
    ensures
        spec_key_value(s, pos, fill) matches Parsed::Take(kv, trailing, next) ==> 0 <= pos < next
            <= s.len() && key_value_text(kv, space) + fill_text(trailing) == fill_text_or(
            fill,
            space,
        ) + s.subrange(pos, next),
    decreases s.len() - pos, 14int,
{
    lemma_key(s, pos, fill, space);
    match spec_key(s, pos, fill) {
        Parsed::Take(k, semicolon_fill, colon) => {
            if byte_at(s, colon, COLON) {
                lemma_fill_parse(s, colon + 1);
                let at = fill_end(s, colon + 1);
                let read = fill_segments(s, colon + 1);
                lemma_value(s, at, read);
                match spec_value(s, at, read) {
                    Parsed::Take(value, trailing, next) => {
                        let kv = KeyValueModel { key: k, semicolon_fill, value };
                        assert(spec_key_value(s, pos, fill) == Parsed::Take(kv, trailing, next));
                        lemma_key_value_text(
                            s,
                            pos,
                            colon,
                            at,
                            next,
                            fill_text_or(fill, space),
                            space,
                            kv,
                            trailing,
                        );
                    },
                    _ => {},
                }
            }
        },
        _ => {},
    }
}

/// A taken key reads its own text.
pub proof fn lemma_key(s: Seq<u8>, pos: int, fill: Fill, space: Seq<u8>)
    requires
        0 <= pos <= s.len(),
    ensures
        spec_key(s, pos, fill) matches Parsed::Take(k, trailing, next) ==> 0 <= pos < next
            <= s.len() && key_text(k, space) + fill_text(trailing) == fill_text_or(fill, space)
            + s.subrange(pos, next),
    decreases s.len() - pos, 12int,
{
    if !(spec_value(s, pos, fill) is Skip) {
        lemma_value(s, pos, fill);
        match spec_value(s, pos, fill) {
            Parsed::Take(v, trailing, next) => {
                assert(key_text(MapKeyModel::Value(v), space) + fill_text(trailing)
                    =~= fill_text_or(fill, space) + (value_body(v) + fill_text(trailing)));
            },
            _ => {},
        }
    } else if is_field_start(s, pos) {
        lemma_run_end(s, pos, ByteClass::Snake);
        let end = run_end(s, pos, ByteClass::Snake);
        lemma_take_at(s, pos, end);
        let k = MapKeyModel::FieldName { fill, name: s.subrange(pos, end) };
        assert(key_text(k, space) + fill_text(fill_segments(s, end)) =~= fill_text_or(fill, space)
            + (s.subrange(pos, end) + fill_text(fill_segments(s, end))));
    }
}

/// Whether a value starts at `pos`: the first bytes there decide it, and
/// once they have, whatever is wrong behind them is an error.
pub open spec fn value_starts(s: Seq<u8>, pos: int) -> bool {
    ||| is_variant_start(s, pos)
    ||| byte_at(s, pos, HASH)
    ||| byte_at(s, pos, LBRACKET)
    ||| byte_at(s, pos, LPAREN)
    ||| byte_at(s, pos, LBRACE)
    ||| byte_at(s, pos, QUOTE)
    ||| keyword_at(s, pos, unit_text(ValKind::Auto))
    ||| keyword_at(s, pos, true_text())
    ||| keyword_at(s, pos, false_text())
    ||| keyword_at(s, pos, none_text())
    ||| is_number_start(s, pos)
}

/// A value is skipped exactly where none starts: a value that starts is
/// taken or is an error, and never handed on to another reading.
pub proof fn lemma_value_commits(s: Seq<u8>, pos: int, fill: Fill)
    requires
        0 <= pos <= s.len(),
    ensures
        spec_value(s, pos, fill) is Skip <==> !value_starts(s, pos),
{
    if pos < s.len() {
        lemma_fill_parse(s, pos + 1);
        if is_variant_start(s, pos) {
            lemma_run_end(s, pos + 1, ByteClass::Ident);
            let end = run_end(s, pos + 1, ByteClass::Ident);
            if end < s.len() {
                lemma_fill_parse(s, end + 1);
            }
            assert(!(spec_variant(s, pos, fill) is Skip));
        } else {
            assert(spec_variant(s, pos, fill) is Skip);
            if byte_at(s, pos, HASH) {
                assert(!(spec_builtin(s, pos, fill) is Skip));
            } else if keyword_at(s, pos, unit_text(ValKind::Auto)) {
                assert(!(spec_builtin(s, pos, fill) is Skip));
            } else if is_number_start(s, pos) {
                assert(!(spec_builtin(s, pos, fill) is Skip) || !(spec_number(s, pos, fill) is Skip));
                assert(!byte_at(s, pos, LBRACKET) && !byte_at(s, pos, LPAREN) && !byte_at(
                    s,
                    pos,
                    LBRACE,
                ));
            } else {
                assert(spec_builtin(s, pos, fill) is Skip);
                assert(spec_number(s, pos, fill) is Skip);
                if byte_at(s, pos, LBRACKET) {
                    assert(!(spec_list(s, pos, fill, LBRACKET, RBRACKET) is Skip));
                } else if byte_at(s, pos, LPAREN) {
                    assert(!(spec_list(s, pos, fill, LPAREN, RPAREN) is Skip));
                } else if byte_at(s, pos, LBRACE) {
                    assert(!(spec_map(s, pos, fill) is Skip));
                } else {
                    assert(spec_list(s, pos, fill, LBRACKET, RBRACKET) is Skip);
                    assert(spec_list(s, pos, fill, LPAREN, RPAREN) is Skip);
                    assert(spec_map(s, pos, fill) is Skip);
                }
            }
        }
    } else {
        assert(!has_at(s, pos, unit_text(ValKind::Auto)));
        assert(!has_at(s, pos, true_text()));
        assert(!has_at(s, pos, false_text()));
        assert(!has_at(s, pos, none_text()));
    }
}

} // verus!
