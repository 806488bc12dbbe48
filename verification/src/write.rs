//! The writer: every node appends to a byte buffer exactly the text that it
//! stands for, its own fill included.
use vstd::prelude::*;
use vstd::string::StringSliceAdditionalSpecFns;
use crate::bytes::{
    append, COLON, HASH, LBRACE, LBRACKET, LPAREN, PERCENT, QUOTE, RBRACE, RBRACKET, RPAREN,
    SPACE,
};
use crate::fill::{fill_text, fill_text_or};
use crate::names::name_as_str;
use crate::value::{
    entries_text, entries_view, entry_text, hex_digit, hex_pair, key_text, key_value_text,
    lemma_entries_view, lemma_values_view, list_text, map_text, none_text, separator, unit_text,
    value_text, values_text, values_view, variant_text, CafArray, CafBool, CafBuiltin,
    CafEnumVariant, CafEnumVariantIdentifier, CafHexColor, CafMap, CafMapEntry, CafMapKey,
    CafMapKeyValue, CafNone, CafNumber, CafNumberValue, CafString, CafTuple, CafValue,
    CobMacroParam, MapEntryModel, ValKind, ValueModel,
};

verus! {

/// Appends the two hex digits of `b`.
fn write_hex_pair(b: u8, out: &mut Vec<u8>)
    ensures
        final(out)@ == old(out)@ + hex_pair(b),
{
    let upper = b / 16;
    let lower = b % 16;
    out.push(write_hex_digit(upper));
    out.push(write_hex_digit(lower));
    proof {
        assert(final(out)@ =~= old(out)@ + hex_pair(b));
    }
}

/// The hex digit for a value below 16.
fn write_hex_digit(d: u8) -> (r: u8)
    requires
        d < 16,
    ensures
        r == hex_digit(d as int),
{
    if d < 10 {
        48 + d
    } else {
        55 + d
    }
}

/// Appends the text of a unit.
fn write_unit(val: ValKind, out: &mut Vec<u8>)
    ensures
        final(out)@ == old(out)@ + unit_text(val),
{
    match val {
        ValKind::Auto => {
            out.push(97);
            out.push(117);
            out.push(116);
            out.push(111);
        },
        ValKind::Px => {
            out.push(112);
            out.push(120);
        },
        ValKind::Percent => {
            out.push(PERCENT);
        },
        ValKind::Vw => {
            out.push(118);
            out.push(119);
        },
        ValKind::Vh => {
            out.push(118);
            out.push(104);
        },
        ValKind::VMin => {
            out.push(118);
            out.push(109);
            out.push(105);
            out.push(110);
        },
        ValKind::VMax => {
            out.push(118);
            out.push(109);
            out.push(97);
            out.push(120);
        },
    }
    proof {
        assert(final(out)@ =~= old(out)@ + unit_text(val));
    }
}

impl CafNumberValue {
    /// Appends the number as it stood in the source.
    pub fn write_to(&self, out: &mut Vec<u8>)
        ensures
            final(out)@ == old(out)@ + self@.original,
    {
        append(out, name_as_str(&self.original).as_bytes());
    }
}

impl CafNumber {
    pub fn write_with(&self, out: &mut Vec<u8>, space: &[u8])
        ensures
            final(out)@ == old(out)@ + value_text(ValueModel::Number(self@), space@),
    {
        self.fill.write_or(out, space);
        self.number.write_to(out);
        proof {
            assert(final(out)@ =~= old(out)@ + value_text(ValueModel::Number(self@), space@));
        }
    }

    pub fn write_to(&self, out: &mut Vec<u8>)
        ensures
            final(out)@ == old(out)@ + value_text(ValueModel::Number(self@), Seq::empty()),
    {
        let none: Vec<u8> = Vec::new();
        self.write_with(out, none.as_slice());
    }

    pub fn write_to_with_space(&self, out: &mut Vec<u8>, space: &str)
        ensures
            final(out)@ == old(out)@ + value_text(ValueModel::Number(self@), space.spec_bytes()),
    {
        self.write_with(out, space.as_bytes());
    }
}

impl CafString {
    pub fn write_with(&self, out: &mut Vec<u8>, space: &[u8])
        ensures
            final(out)@ == old(out)@ + value_text(ValueModel::String(self@), space@),
    {
        self.fill.write_or(out, space);
        out.push(QUOTE);
        append(out, self.raw.as_slice());
        out.push(QUOTE);
        proof {
            assert(final(out)@ =~= old(out)@ + value_text(ValueModel::String(self@), space@));
        }
    }

    pub fn write_to(&self, out: &mut Vec<u8>)
        ensures
            final(out)@ == old(out)@ + value_text(ValueModel::String(self@), Seq::empty()),
    {
        let none: Vec<u8> = Vec::new();
        self.write_with(out, none.as_slice());
    }

    pub fn write_to_with_space(&self, out: &mut Vec<u8>, space: &str)
        ensures
            final(out)@ == old(out)@ + value_text(ValueModel::String(self@), space.spec_bytes()),
    {
        self.write_with(out, space.as_bytes());
    }
}

impl CafBool {
    pub fn write_with(&self, out: &mut Vec<u8>, space: &[u8])
        ensures
            final(out)@ == old(out)@ + value_text(ValueModel::Bool(self@), space@),
    {
        self.fill.write_or(out, space);
        if self.value {
            out.push(116);
            out.push(114);
            out.push(117);
            out.push(101);
        } else {
            out.push(102);
            out.push(97);
            out.push(108);
            out.push(115);
            out.push(101);
        }
        proof {
            assert(final(out)@ =~= old(out)@ + value_text(ValueModel::Bool(self@), space@));
        }
    }

    pub fn write_to(&self, out: &mut Vec<u8>)
        ensures
            final(out)@ == old(out)@ + value_text(ValueModel::Bool(self@), Seq::empty()),
    {
        let none: Vec<u8> = Vec::new();
        self.write_with(out, none.as_slice());
    }

    pub fn write_to_with_space(&self, out: &mut Vec<u8>, space: &str)
        ensures
            final(out)@ == old(out)@ + value_text(ValueModel::Bool(self@), space.spec_bytes()),
    {
        self.write_with(out, space.as_bytes());
    }
}

impl CafNone {
    pub fn write_with(&self, out: &mut Vec<u8>, space: &[u8])
        ensures
            final(out)@ == old(out)@ + value_text(ValueModel::Nothing(self@), space@),
    {
        self.fill.write_or(out, space);
        out.push(110);
        out.push(111);
        out.push(110);
        out.push(101);
        proof {
            assert(final(out)@ =~= old(out)@ + value_text(ValueModel::Nothing(self@), space@));
        }
    }

    /// Appends the fill and `none`.
    pub fn write_to(&self, out: &mut Vec<u8>)
        ensures
            final(out)@ == old(out)@ + fill_text(self@) + none_text(),
    {
        let none: Vec<u8> = Vec::new();
        self.write_with(out, none.as_slice());
        proof {
            assert(final(out)@ =~= old(out)@ + fill_text(self@) + none_text());
        }
    }

    pub fn write_to_with_space(&self, out: &mut Vec<u8>, space: &str)
        ensures
            final(out)@ == old(out)@ + value_text(ValueModel::Nothing(self@), space.spec_bytes()),
    {
        self.write_with(out, space.as_bytes());
    }
}

impl CafEnumVariantIdentifier {
    pub fn write_with(&self, out: &mut Vec<u8>, space: &[u8])
        ensures
            final(out)@ == old(out)@ + fill_text_or(self@.fill, space@) + self@.name,
    {
        self.fill.write_or(out, space);
        append(out, name_as_str(&self.name).as_bytes());
    }

    /// Appends the fill and the name.
    pub fn write_to(&self, out: &mut Vec<u8>)
        ensures
            final(out)@ == old(out)@ + fill_text(self@.fill) + self@.name,
    {
        self.fill.write_to(out);
        append(out, name_as_str(&self.name).as_bytes());
    }
}

impl CafHexColor {
    pub fn write_with(&self, out: &mut Vec<u8>, space: &[u8])
        ensures
            final(out)@ == old(out)@ + value_text(ValueModel::Builtin(self@), space@),
    {
        self.fill.write_or(out, space);
        out.push(HASH);
        if let Some(alpha) = self.color.alpha {
            write_hex_pair(alpha, out);
        }
        write_hex_pair(self.color.red, out);
        write_hex_pair(self.color.green, out);
        write_hex_pair(self.color.blue, out);
        proof {
            assert(final(out)@ =~= old(out)@ + value_text(ValueModel::Builtin(self@), space@));
        }
    }

    pub fn write_to(&self, out: &mut Vec<u8>)
        ensures
            final(out)@ == old(out)@ + value_text(ValueModel::Builtin(self@), Seq::empty()),
    {
        let none: Vec<u8> = Vec::new();
        self.write_with(out, none.as_slice());
    }

    pub fn write_to_with_space(&self, out: &mut Vec<u8>, space: &str)
        ensures
            final(out)@ == old(out)@ + value_text(ValueModel::Builtin(self@), space.spec_bytes()),
    {
        self.write_with(out, space.as_bytes());
    }
}

impl CafBuiltin {
    pub fn write_with(&self, out: &mut Vec<u8>, space: &[u8])
        ensures
            final(out)@ == old(out)@ + value_text(ValueModel::Builtin(self@), space@),
    {
        match self {
            CafBuiltin::Color(color) => {
                color.write_with(out, space);
            },
            CafBuiltin::Val { fill, number, val } => {
                fill.write_or(out, space);
                if let Some(number) = number {
                    number.write_to(out);
                }
                write_unit(*val, out);
                proof {
                    assert(final(out)@ =~= old(out)@ + value_text(
                        ValueModel::Builtin(self@),
                        space@,
                    ));
                }
            },
        }
    }

    pub fn write_to(&self, out: &mut Vec<u8>)
        ensures
            final(out)@ == old(out)@ + value_text(ValueModel::Builtin(self@), Seq::empty()),
    {
        let none: Vec<u8> = Vec::new();
        self.write_with(out, none.as_slice());
    }

    pub fn write_to_with_space(&self, out: &mut Vec<u8>, space: &str)
        ensures
            final(out)@ == old(out)@ + value_text(ValueModel::Builtin(self@), space.spec_bytes()),
    {
        self.write_with(out, space.as_bytes());
    }
}

impl CobMacroParam {
    /// Appends nothing: a macro parameter has no text.
    pub fn write_to(&self, out: &mut Vec<u8>)
        ensures
            final(out)@ == old(out)@,
    {
    }

    /// Appends nothing: a macro parameter has no text.
    pub fn write_to_with_space(&self, out: &mut Vec<u8>, space: &str)
        ensures
            final(out)@ == old(out)@,
    {
    }
}

/// Appends the values of a list, each set off from the one before it.
fn write_values(vs: &Vec<CafValue>, out: &mut Vec<u8>)
    ensures
        final(out)@ == old(out)@ + values_text(values_view(vs@), true),
    decreases vs,
{
    let none: Vec<u8> = Vec::new();
    let mut one: Vec<u8> = Vec::new();
    one.push(SPACE);
    let ghost models = values_view(vs@);
    proof {
        lemma_values_view(vs@);
        assert(models.subrange(0, 0) =~= Seq::<ValueModel>::empty());
        assert(out@ =~= old(out)@ + values_text(models.subrange(0, 0), true));
    }
    let mut i: usize = 0;
    while i < vs.len()
        invariant
            0 <= i <= vs@.len(),
            models == values_view(vs@),
            models.len() == vs@.len(),
            forall|j: int| 0 <= j < vs@.len() ==> #[trigger] models[j] == vs@[j]@,
            none@ == Seq::<u8>::empty(),
            one@ == seq![SPACE],
            out@ == old(out)@ + values_text(models.subrange(0, i as int), true),
        decreases vs@.len() - i,
    {
        let ghost before = out@;
        proof {
            assert(decreases_to!(*vs => vs[i as int]));
        }
        if i == 0 {
            vs[i].write_with(out, none.as_slice());
        } else {
            vs[i].write_with(out, one.as_slice());
        }
        proof {
            let next = models.subrange(0, i + 1);
            assert(next.drop_last() =~= models.subrange(0, i as int));
            assert(next.last() == vs@[i as int]@);
            assert(separator(true && next.len() == 1) == if i == 0 {
                none@
            } else {
                one@
            });
            assert(values_text(next, true) == values_text(next.drop_last(), true) + value_text(
                next.last(),
                separator(true && next.len() == 1),
            ));
            assert(out@ =~= old(out)@ + values_text(next, true));
        }
        i += 1;
    }
    proof {
        assert(models.subrange(0, vs@.len() as int) =~= models);
    }
}

/// Appends the entries of a map, each set off from the one before it.
fn write_entries(es: &Vec<CafMapEntry>, out: &mut Vec<u8>)
    ensures
        final(out)@ == old(out)@ + entries_text(entries_view(es@), true),
    decreases es,
{
    let none: Vec<u8> = Vec::new();
    let mut one: Vec<u8> = Vec::new();
    one.push(SPACE);
    let ghost models = entries_view(es@);
    proof {
        lemma_entries_view(es@);
        assert(models.subrange(0, 0) =~= Seq::<MapEntryModel>::empty());
        assert(out@ =~= old(out)@ + entries_text(models.subrange(0, 0), true));
    }
    let mut i: usize = 0;
    while i < es.len()
        invariant
            0 <= i <= es@.len(),
            models == entries_view(es@),
            models.len() == es@.len(),
            forall|j: int| 0 <= j < es@.len() ==> #[trigger] models[j] == es@[j]@,
            none@ == Seq::<u8>::empty(),
            one@ == seq![SPACE],
            out@ == old(out)@ + entries_text(models.subrange(0, i as int), true),
        decreases es@.len() - i,
    {
        proof {
            assert(decreases_to!(*es => es[i as int]));
        }
        if i == 0 {
            es[i].write_with(out, none.as_slice());
        } else {
            es[i].write_with(out, one.as_slice());
        }
        proof {
            let next = models.subrange(0, i + 1);
            assert(next.drop_last() =~= models.subrange(0, i as int));
            assert(next.last() == es@[i as int]@);
            assert(separator(true && next.len() == 1) == if i == 0 {
                none@
            } else {
                one@
            });
            assert(entries_text(next, true) == entries_text(next.drop_last(), true)
                + entry_text(next.last(), separator(true && next.len() == 1)));
            assert(out@ =~= old(out)@ + entries_text(next, true));
        }
        i += 1;
    }
    proof {
        assert(models.subrange(0, es@.len() as int) =~= models);
    }
}

impl CafArray {
    pub fn write_with(&self, out: &mut Vec<u8>, space: &[u8])
        ensures
            final(out)@ == old(out)@ + list_text(self@, LBRACKET, RBRACKET, space@),
        decreases self,
    {
        self.start_fill.write_or(out, space);
        out.push(LBRACKET);
        write_values(&self.entries, out);
        self.end_fill.write_to(out);
        out.push(RBRACKET);
        proof {
            assert(final(out)@ =~= old(out)@ + list_text(self@, LBRACKET, RBRACKET, space@));
        }
    }

    pub fn write_to(&self, out: &mut Vec<u8>)
        ensures
            final(out)@ == old(out)@ + list_text(self@, LBRACKET, RBRACKET, Seq::empty()),
    {
        let none: Vec<u8> = Vec::new();
        self.write_with(out, none.as_slice());
    }

    pub fn write_to_with_space(&self, out: &mut Vec<u8>, space: &str)
        ensures
            final(out)@ == old(out)@ + list_text(self@, LBRACKET, RBRACKET, space.spec_bytes()),
    {
        self.write_with(out, space.as_bytes());
    }
}

impl CafTuple {
    pub fn write_with(&self, out: &mut Vec<u8>, space: &[u8])
        ensures
            final(out)@ == old(out)@ + list_text(self@, LPAREN, RPAREN, space@),
        decreases self,
    {
        self.start_fill.write_or(out, space);
        out.push(LPAREN);
        write_values(&self.entries, out);
        self.end_fill.write_to(out);
        out.push(RPAREN);
        proof {
            assert(final(out)@ =~= old(out)@ + list_text(self@, LPAREN, RPAREN, space@));
        }
    }

    pub fn write_to(&self, out: &mut Vec<u8>)
        ensures
            final(out)@ == old(out)@ + list_text(self@, LPAREN, RPAREN, Seq::empty()),
    {
        let none: Vec<u8> = Vec::new();
        self.write_with(out, none.as_slice());
    }

    pub fn write_to_with_space(&self, out: &mut Vec<u8>, space: &str)
        ensures
            final(out)@ == old(out)@ + list_text(self@, LPAREN, RPAREN, space.spec_bytes()),
    {
        self.write_with(out, space.as_bytes());
    }
}

impl CafMapKey {
    pub fn write_with(&self, out: &mut Vec<u8>, space: &[u8])
        ensures
            final(out)@ == old(out)@ + key_text(self@, space@),
        decreases self,
    {
        match self {
            CafMapKey::FieldName { fill, name } => {
                fill.write_or(out, space);
                append(out, name_as_str(name).as_bytes());
                proof {
                    assert(final(out)@ =~= old(out)@ + key_text(self@, space@));
                }
            },
            CafMapKey::Value(value) => {
                value.write_with(out, space);
            },
        }
    }

    pub fn write_to(&self, out: &mut Vec<u8>)
        ensures
            final(out)@ == old(out)@ + key_text(self@, Seq::empty()),
    {
        let none: Vec<u8> = Vec::new();
        self.write_with(out, none.as_slice());
    }

    pub fn write_to_with_space(&self, out: &mut Vec<u8>, space: &str)
        ensures
            final(out)@ == old(out)@ + key_text(self@, space.spec_bytes()),
    {
        self.write_with(out, space.as_bytes());
    }
}

impl CafMapKeyValue {
    pub fn write_with(&self, out: &mut Vec<u8>, space: &[u8])
        ensures
            final(out)@ == old(out)@ + key_value_text(self@, space@),
        decreases self,
    {
        let none: Vec<u8> = Vec::new();
        self.key.write_with(out, space);
        self.semicolon_fill.write_to(out);
        out.push(COLON);
        self.value.write_with(out, none.as_slice());
        proof {
            assert(final(out)@ =~= old(out)@ + key_value_text(self@, space@));
        }
    }

    pub fn write_to(&self, out: &mut Vec<u8>)
        ensures
            final(out)@ == old(out)@ + key_value_text(self@, Seq::empty()),
    {
        let none: Vec<u8> = Vec::new();
        self.write_with(out, none.as_slice());
    }

    pub fn write_to_with_space(&self, out: &mut Vec<u8>, space: &str)
        ensures
            final(out)@ == old(out)@ + key_value_text(self@, space.spec_bytes()),
    {
        self.write_with(out, space.as_bytes());
    }
}

impl CafMapEntry {
    pub fn write_with(&self, out: &mut Vec<u8>, space: &[u8])
        ensures
            final(out)@ == old(out)@ + entry_text(self@, space@),
        decreases self,
    {
        match self {
            CafMapEntry::KeyValue(kv) => {
                kv.write_with(out, space);
            },
            CafMapEntry::MacroParam(param) => {
                param.write_to(out);
                proof {
                    assert(final(out)@ =~= old(out)@ + entry_text(self@, space@));
                }
            },
        }
    }

    pub fn write_to(&self, out: &mut Vec<u8>)
        ensures
            final(out)@ == old(out)@ + entry_text(self@, Seq::empty()),
    {
        let none: Vec<u8> = Vec::new();
        self.write_with(out, none.as_slice());
    }

    pub fn write_to_with_space(&self, out: &mut Vec<u8>, space: &str)
        ensures
            final(out)@ == old(out)@ + entry_text(self@, space.spec_bytes()),
    {
        self.write_with(out, space.as_bytes());
    }
}

impl CafMap {
    pub fn write_with(&self, out: &mut Vec<u8>, space: &[u8])
        ensures
            final(out)@ == old(out)@ + map_text(self@, space@),
        decreases self,
    {
        self.start_fill.write_or(out, space);
        out.push(LBRACE);
        write_entries(&self.entries, out);
        self.end_fill.write_to(out);
        out.push(RBRACE);
        proof {
            assert(final(out)@ =~= old(out)@ + map_text(self@, space@));
        }
    }

    pub fn write_to(&self, out: &mut Vec<u8>)
        ensures
            final(out)@ == old(out)@ + map_text(self@, Seq::empty()),
    {
        let none: Vec<u8> = Vec::new();
        self.write_with(out, none.as_slice());
    }

    pub fn write_to_with_space(&self, out: &mut Vec<u8>, space: &str)
        ensures
            final(out)@ == old(out)@ + map_text(self@, space.spec_bytes()),
    {
        self.write_with(out, space.as_bytes());
    }
}

impl CafEnumVariant {
    pub fn write_with(&self, out: &mut Vec<u8>, space: &[u8])
        ensures
            final(out)@ == old(out)@ + variant_text(self@, space@),
        decreases self,
    {
        let none: Vec<u8> = Vec::new();
        match self {
            CafEnumVariant::Unit { id } => {
                id.write_with(out, space);
            },
            CafEnumVariant::Tuple { id, tuple } => {
                id.write_with(out, space);
                tuple.write_with(out, none.as_slice());
            },
            CafEnumVariant::Array { id, array } => {
                id.write_with(out, space);
                array.write_with(out, none.as_slice());
            },
            CafEnumVariant::Mapping { id, map } => {
                id.write_with(out, space);
                map.write_with(out, none.as_slice());
            },
        }
        proof {
            assert(final(out)@ =~= old(out)@ + variant_text(self@, space@));
        }
    }

    /// Appends the variant: its fill, its name, and its payload right behind it.
    pub fn write_to(&self, out: &mut Vec<u8>)
        ensures
            final(out)@ == old(out)@ + variant_text(self@, Seq::empty()),
    {
        let none: Vec<u8> = Vec::new();
        self.write_with(out, none.as_slice());
    }
}

impl CafValue {
    pub fn write_with(&self, out: &mut Vec<u8>, space: &[u8])
        ensures
            final(out)@ == old(out)@ + value_text(self@, space@),
        decreases self,
    {
        match self {
            CafValue::EnumVariant(v) => v.write_with(out, space),
            CafValue::Builtin(v) => v.write_with(out, space),
            CafValue::Array(v) => v.write_with(out, space),
            CafValue::Tuple(v) => v.write_with(out, space),
            CafValue::Mapping(v) => v.write_with(out, space),
            CafValue::Number(v) => v.write_with(out, space),
            CafValue::Bool(v) => v.write_with(out, space),
            CafValue::Nothing(v) => v.write_with(out, space),
            CafValue::String(v) => v.write_with(out, space),
        }
        proof {
            assert(final(out)@ =~= old(out)@ + value_text(self@, space@));
        }
    }

    /// Appends the value with its fill.
    pub fn write_to(&self, out: &mut Vec<u8>)
        ensures
            final(out)@ == old(out)@ + value_text(self@, Seq::empty()),
    {
        let none: Vec<u8> = Vec::new();
        self.write_with(out, none.as_slice());
    }

    /// Appends the value with its fill, or with `space` where it has none.
    pub fn write_to_with_space(&self, out: &mut Vec<u8>, space: &str)
        ensures
            final(out)@ == old(out)@ + value_text(self@, space.spec_bytes()),
    {
        self.write_with(out, space.as_bytes());
    }
}

} // verus!
