//! From the syntax tree to the JSON of a typed value: the tree is converted
//! and the result is held against the shape of the type that it stands for.
use vstd::prelude::*;
use vstd::utf8::encode_utf8;
use crate::from_json::{value_from_json, JsonError};
use crate::json::{same_text, CafError, JsonModel, JsonValue};
use crate::json_laws::{json_wf, lemma_json_round_trip};
use crate::registry::{ident_count, ident_index, path_index, TypeRegistration, TypeRegistry};
use crate::to_json::value_json;
use crate::value::{CafValue, ValueModel};

verus! {

/// Why a value is no value of a type.
#[derive(Debug, Clone, Copy, PartialEq, Eq, Structural)]
pub enum TypedError {
    /// The value stands for no JSON at all.
    Convert(CafError),
    /// The value's JSON does not have the shape of the type.
    Shape(JsonError),
}

/// The JSON of `v` as a value of the type `ty`.
pub open spec fn typed_json(v: ValueModel, ty: int, reg: TypeRegistry) -> Result<
    JsonModel,
    TypedError,
> {
    match value_json(v) {
        Err(e) => Err(TypedError::Convert(e)),
        Ok(j) => match value_from_json(j, ty, reg, reg.types@.len()) {
            Ok(_) => Ok(j),
            Err(e) => Err(TypedError::Shape(e)),
        },
    }
}

/// A tree that was made from the well-formed JSON of a typed value is a
/// value of that type, and stands for that JSON.
pub proof fn lemma_typed_round_trip(j: JsonModel, ty: int, reg: TypeRegistry)
    requires
        json_wf(j),
    ensures
        value_from_json(j, ty, reg, reg.types@.len()) matches Ok(v) ==> typed_json(v, ty, reg)
            == Ok::<JsonModel, TypedError>(j),
{
    lemma_json_round_trip(j, ty, reg, reg.types@.len());
}

impl CafValue {
    /// Converts the value to JSON and checks that the JSON has the shape of
    /// the type `type_id`.
    pub fn to_typed_json(&self, type_id: usize, registry: &TypeRegistry) -> (r: Result<
        JsonValue,
        TypedError,
    >)
        ensures
            match typed_json(self@, type_id as int, *registry) {
                Ok(j) => r matches Ok(found) && found@ == j,
                Err(e) => r matches Err(found) && found == e,
            },
    {
        let json = match self.to_json() {
            Ok(json) => json,
            Err(e) => {
                return Err(TypedError::Convert(e));
            },
        };
        match CafValue::from_json(&json, type_id, registry) {
            Ok(_) => Ok(json),
            Err(e) => Err(TypedError::Shape(e)),
        }
    }
}

/// A short name and the long name that it stands for.
#[derive(Debug, Clone, PartialEq, Eq)]
pub struct Shortcut {
    pub short: String,
    pub long: String,
}

/// The long names that a file declares for short names.
#[derive(Debug, Clone, PartialEq, Eq)]
pub struct NameShortcuts {
    pub entries: Vec<Shortcut>,
}

/// The index of the first shortcut at or after `from` for the short name `short`.
pub open spec fn shortcut_index(entries: Seq<Shortcut>, short: Seq<u8>, from: int) -> Option<int>
    decreases entries.len() - from,
{
    if from < 0 || from >= entries.len() {
        None
    } else if encode_utf8(entries[from].short@) == short {
        Some(from)
    } else {
        shortcut_index(entries, short, from + 1)
    }
}

/// The type that a name stands for: the one type with that short name, else
/// the type whose long name the shortcuts give for it.
pub open spec fn resolved(types: Seq<TypeRegistration>, shortcuts: Seq<Shortcut>, name: Seq<u8>)
    -> Option<int> {
    if ident_count(types, name, 0) == 1 {
        ident_index(types, name, 0)
    } else {
        match shortcut_index(shortcuts, name, 0) {
            Some(i) => path_index(types, encode_utf8(shortcuts[i].long@), 0),
            None => None,
        }
    }
}

/// A name that names no type: no type, or more than one, has it as its short
/// name, and no shortcut leads from it to a registered long name.
#[derive(Debug, Clone, Copy, PartialEq, Eq, Structural)]
pub struct UnknownType;

impl NameShortcuts {
    pub fn new() -> (r: Self)
        ensures
            r.entries@.len() == 0,
    {
        NameShortcuts { entries: Vec::new() }
    }

    /// A copy of the shortcuts.
    pub fn duplicate(&self) -> (r: Self)
        ensures
            r.entries@ == self.entries@,
    {
        let mut entries: Vec<Shortcut> = Vec::new();
        let mut i: usize = 0;
        while i < self.entries.len()
            invariant
                0 <= i <= self.entries@.len(),
                entries@ == self.entries@.subrange(0, i as int),
            decreases self.entries@.len() - i,
        {
            entries.push(
                Shortcut {
                    short: self.entries[i].short.clone(),
                    long: self.entries[i].long.clone(),
                },
            );
            proof {
                assert(entries@ =~= self.entries@.subrange(0, i + 1));
            }
            i += 1;
        }
        proof {
            assert(self.entries@.subrange(0, self.entries@.len() as int) =~= self.entries@);
        }
        NameShortcuts { entries }
    }

    /// The index of the shortcut for `short`.
    pub fn find(&self, short: &str) -> (r: Option<usize>)
        ensures
            match r {
                Some(i) => shortcut_index(self.entries@, encode_utf8(short@), 0) == Some(i as int)
                    && i < self.entries@.len(),
                None => shortcut_index(self.entries@, encode_utf8(short@), 0) is None,
            },
    {
        let mut i: usize = 0;
        while i < self.entries.len()
            invariant
                0 <= i <= self.entries@.len(),
                shortcut_index(self.entries@, encode_utf8(short@), 0) == shortcut_index(
                    self.entries@,
                    encode_utf8(short@),
                    i as int,
                ),
            decreases self.entries@.len() - i,
        {
            if same_text(self.entries[i].short.as_str(), short) {
                return Some(i);
            }
            i += 1;
        }
        None
    }

    /// Lets `short` stand for `long`, in the place of what it stood for.
    pub fn insert(&mut self, short: String, long: String)
        ensures
            final(self).entries@ == match shortcut_index(
                old(self).entries@,
                encode_utf8(short@),
                0,
            ) {
                Some(i) => old(self).entries@.update(i, Shortcut { short, long }),
                None => old(self).entries@.push(Shortcut { short, long }),
            },
    {
        match self.find(short.as_str()) {
            Some(i) => {
                let _ = self.entries.remove(i);
                self.entries.insert(i, Shortcut { short, long });
                proof {
                    assert(self.entries@ =~= old(self).entries@.update(
                        i as int,
                        Shortcut { short, long },
                    ));
                }
            },
            None => {
                self.entries.push(Shortcut { short, long });
            },
        }
    }
}

impl TypeRegistry {
    /// Finds the type that a name stands for: first by the short name, then
    /// through the shortcuts by the long name.
    pub fn resolve(&self, name: &str, shortcuts: &NameShortcuts) -> (r: Result<usize, UnknownType>)
        ensures
            match r {
                Ok(i) => resolved(self.types@, shortcuts.entries@, encode_utf8(name@)) == Some(
                    i as int,
                ) && i < self.types@.len(),
                Err(_) => resolved(self.types@, shortcuts.entries@, encode_utf8(name@)) is None,
            },
    {
        if let Some(i) = self.get_with_short_type_path(name) {
            return Ok(i);
        }
        let Some(at) = shortcuts.find(name) else {
            return Err(UnknownType);
        };
        match self.get_with_type_path(shortcuts.entries[at].long.as_str()) {
            Some(i) => Ok(i),
            None => Err(UnknownType),
        }
    }
}

} // verus!
