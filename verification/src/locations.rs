//! Where errors are reported: every error of the grammar carries an offset
//! inside the input, at or behind the offset where the broken node starts.
use vstd::prelude::*;
use crate::bytes::{COLON, LBRACE, LBRACKET, LPAREN, RBRACKET, RPAREN};
use crate::fill::{fill_end, fill_segments, lemma_fill_parse};
use crate::grammar::{
    is_variant_start, spec_builtin, spec_entries, spec_entry, spec_key, spec_key_value, spec_list,
    spec_map, spec_value, spec_values, spec_variant, Items, Parsed,
};
use crate::scan::{byte_at, lemma_run_end, run_end, ByteClass};
use crate::soundness::{lemma_entry, lemma_key, lemma_value};
use crate::value::Fill;

verus! {

/// Whether an error is reported at an offset from `from` to the end of the input.
pub open spec fn located<T>(p: Parsed<T>, s: Seq<u8>, from: int) -> bool {
    p matches Parsed::Fail(e) ==> from <= e.offset <= s.len()
}

/// Whether an error among items is reported at an offset from `from` to the
/// end of the input.
pub open spec fn items_located<T>(items: Items<T>, s: Seq<u8>, from: int) -> bool {
    items matches Items::Fail(e) ==> from <= e.offset <= s.len()
}

/// An error in a value is reported inside the input, at or behind the start
/// of the value.
pub proof fn lemma_value_located(s: Seq<u8>, pos: int, fill: Fill)
    requires
        0 <= pos <= s.len() <= usize::MAX,
    ensures
        located(spec_value(s, pos, fill), s, pos),
    decreases s.len() - pos, 10int,
{
    if pos >= s.len() {
    } else if !(spec_variant(s, pos, fill) is Skip) {
        lemma_variant_located(s, pos, fill);
    } else if !(spec_builtin(s, pos, fill) is Skip) {
    } else if !(spec_list(s, pos, fill, LBRACKET, RBRACKET) is Skip) {
        lemma_list_located(s, pos, fill, LBRACKET, RBRACKET);
    } else if !(spec_list(s, pos, fill, LPAREN, RPAREN) is Skip) {
        lemma_list_located(s, pos, fill, LPAREN, RPAREN);
    } else if !(spec_map(s, pos, fill) is Skip) {
        lemma_map_located(s, pos, fill);
    } else {
    }
}

pub proof fn lemma_variant_located(s: Seq<u8>, pos: int, fill: Fill)
    requires
        0 <= pos <= s.len() <= usize::MAX,
    ensures
        located(spec_variant(s, pos, fill), s, pos),
    decreases s.len() - pos, 5int,
{
    if is_variant_start(s, pos) {
        lemma_run_end(s, pos + 1, ByteClass::Ident);
        let end = run_end(s, pos + 1, ByteClass::Ident);
        if byte_at(s, end, LPAREN) {
            lemma_list_located(s, end, Seq::empty(), LPAREN, RPAREN);
        } else if byte_at(s, end, LBRACKET) {
            lemma_list_located(s, end, Seq::empty(), LBRACKET, RBRACKET);
        } else if byte_at(s, end, LBRACE) {
            lemma_map_located(s, end, Seq::empty());
        }
    }
}

pub proof fn lemma_list_located(s: Seq<u8>, pos: int, fill: Fill, open: u8, close: u8)
    requires
        0 <= pos <= s.len() <= usize::MAX,
    ensures
        located(spec_list(s, pos, fill, open, close), s, pos),
    decreases s.len() - pos, 4int,
{
    if byte_at(s, pos, open) {
        lemma_fill_parse(s, pos + 1);
        let first = fill_end(s, pos + 1);
        lemma_values_located(s, first, fill_segments(s, pos + 1), true, pos);
        crate::soundness::lemma_values(s, first, fill_segments(s, pos + 1), true, pos);
    }
}

pub proof fn lemma_values_located(s: Seq<u8>, pos: int, fill: Fill, first: bool, start: int)
    requires
        0 <= start <= pos <= s.len() <= usize::MAX,
    ensures
        items_located(spec_values(s, pos, fill, first, start), s, start),
    decreases s.len() - pos, 20int,
{
    lemma_value_located(s, pos, fill);
    lemma_value(s, pos, fill);
    match spec_value(s, pos, fill) {
        Parsed::Take(v, next_fill, next) => {
            if first || fill.len() > 0 {
                lemma_values_located(s, next, next_fill, false, start);
            }
        },
        _ => {},
    }
}

pub proof fn lemma_map_located(s: Seq<u8>, pos: int, fill: Fill)
    requires
        0 <= pos <= s.len() <= usize::MAX,
    ensures
        located(spec_map(s, pos, fill), s, pos),
    decreases s.len() - pos, 4int,
{
    if byte_at(s, pos, LBRACE) {
        lemma_fill_parse(s, pos + 1);
        let first = fill_end(s, pos + 1);
        lemma_entries_located(s, first, fill_segments(s, pos + 1), true, pos);
        crate::soundness::lemma_entries(s, first, fill_segments(s, pos + 1), true, pos);
    }
}

pub proof fn lemma_entries_located(s: Seq<u8>, pos: int, fill: Fill, first: bool, start: int)
    requires
        0 <= start <= pos <= s.len() <= usize::MAX,
    ensures
        items_located(spec_entries(s, pos, fill, first, start), s, start),
    decreases s.len() - pos, 20int,
{
    lemma_key_value_located(s, pos, fill);
    lemma_entry(s, pos, fill, Seq::empty());
    match spec_entry(s, pos, fill) {
        Parsed::Take(e, next_fill, next) => {
            if first || fill.len() > 0 {
                lemma_entries_located(s, next, next_fill, false, start);
            }
        },
        _ => {},
    }
}

pub proof fn lemma_key_value_located(s: Seq<u8>, pos: int, fill: Fill)
    requires
        0 <= pos <= s.len() <= usize::MAX,
    ensures
        located(spec_key_value(s, pos, fill), s, pos),
        located(spec_entry(s, pos, fill), s, pos),
    decreases s.len() - pos, 14int,
{
    lemma_value_located(s, pos, fill);
    lemma_key(s, pos, fill, Seq::empty());
    match spec_key(s, pos, fill) {
        Parsed::Take(k, semicolon_fill, colon) => {
            if byte_at(s, colon, COLON) {
                lemma_fill_parse(s, colon + 1);
                lemma_value_located(s, fill_end(s, colon + 1), fill_segments(s, colon + 1));
            }
        },
        _ => {},
    }
}

} // verus!
