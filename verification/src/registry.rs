//! The registry of types: for every registered type its names and its shape.
use vstd::prelude::*;
use vstd::utf8::encode_utf8;
use crate::json::same_text;

verus! {

/// The kinds of values that have no parts.
#[derive(Debug, Clone, Copy, PartialEq, Eq, Structural)]
pub enum ScalarKind {
    Number,
    Text,
    Bool,
}

/// A named field and the registered type of its value.
#[derive(Debug, Clone, PartialEq, Eq)]
pub struct FieldShape {
    pub name: String,
    pub type_id: usize,
}

/// What an enum variant holds.
#[derive(Debug, Clone, PartialEq, Eq)]
pub enum VariantKind {
    Unit,
    /// The registered types of the fields, in order.
    Tuple(Vec<usize>),
    Struct(Vec<FieldShape>),
}

#[derive(Debug, Clone, PartialEq, Eq)]
pub struct VariantShape {
    pub name: String,
    pub kind: VariantKind,
}

/// The shape of a registered type. Types are named by their index in the registry.
#[derive(Debug, Clone, PartialEq, Eq)]
pub enum TypeShape {
    Struct(Vec<FieldShape>),
    /// A tuple or tuple struct: the types of its fields, in order.
    TupleStruct(Vec<usize>),
    Enum(Vec<VariantShape>),
    /// A list or array of values of one type.
    List(usize),
    /// A map from keys of one type to values of another.
    MapOf(usize, usize),
    Scalar(ScalarKind),
}

#[derive(Debug, Clone, PartialEq, Eq)]
pub struct TypeRegistration {
    /// The long name: the full path of the type.
    pub path: String,
    /// The short name.
    pub ident: String,
    pub shape: TypeShape,
}

/// The registered types.
#[derive(Debug, Clone, PartialEq, Eq)]
pub struct TypeRegistry {
    pub types: Vec<TypeRegistration>,
}

/// Every type of `ids` is one of the first `n`.
pub open spec fn ids_in(ids: Seq<usize>, n: int) -> bool {
    forall|i: int| 0 <= i < ids.len() ==> #[trigger] ids[i] < n
}

/// The type of every field is one of the first `n`.
pub open spec fn fields_in(fields: Seq<FieldShape>, n: int) -> bool {
    forall|i: int| 0 <= i < fields.len() ==> (#[trigger] fields[i]).type_id < n
}

pub open spec fn variant_in(v: VariantShape, n: int) -> bool {
    match v.kind {
        VariantKind::Unit => true,
        VariantKind::Tuple(ids) => ids_in(ids@, n),
        VariantKind::Struct(fields) => fields_in(fields@, n),
    }
}

pub open spec fn shape_in(shape: TypeShape, n: int) -> bool {
    match shape {
        TypeShape::Struct(fields) => fields_in(fields@, n),
        TypeShape::TupleStruct(ids) => ids_in(ids@, n),
        TypeShape::Enum(variants) => forall|i: int|
            0 <= i < variants@.len() ==> variant_in(#[trigger] variants@[i], n),
        TypeShape::List(item) => item < n,
        TypeShape::MapOf(key, value) => key < n && value < n,
        TypeShape::Scalar(_) => true,
    }
}

/// The index of the first field at or after `from` whose name is `name`.
pub open spec fn field_index(fields: Seq<FieldShape>, name: Seq<u8>, from: int) -> Option<int>
    decreases fields.len() - from,
{
    if from < 0 || from >= fields.len() {
        None
    } else if encode_utf8(fields[from].name@) == name {
        Some(from)
    } else {
        field_index(fields, name, from + 1)
    }
}

/// The index of the first variant at or after `from` whose name is `name`.
pub open spec fn variant_index(variants: Seq<VariantShape>, name: Seq<u8>, from: int) -> Option<
    int,
>
    decreases variants.len() - from,
{
    if from < 0 || from >= variants.len() {
        None
    } else if encode_utf8(variants[from].name@) == name {
        Some(from)
    } else {
        variant_index(variants, name, from + 1)
    }
}

/// The index of the first type at or after `from` whose long name is `path`.
pub open spec fn path_index(types: Seq<TypeRegistration>, path: Seq<u8>, from: int) -> Option<int>
    decreases types.len() - from,
{
    if from < 0 || from >= types.len() {
        None
    } else if encode_utf8(types[from].path@) == path {
        Some(from)
    } else {
        path_index(types, path, from + 1)
    }
}

/// The number of types at or after `from` whose short name is `ident`.
pub open spec fn ident_count(types: Seq<TypeRegistration>, ident: Seq<u8>, from: int) -> nat
    decreases types.len() - from,
{
    if from < 0 || from >= types.len() {
        0
    } else if encode_utf8(types[from].ident@) == ident {
        1 + ident_count(types, ident, from + 1)
    } else {
        ident_count(types, ident, from + 1)
    }
}

/// The index of the first type at or after `from` whose short name is `ident`.
pub open spec fn ident_index(types: Seq<TypeRegistration>, ident: Seq<u8>, from: int) -> Option<
    int,
>
    decreases types.len() - from,
{
    if from < 0 || from >= types.len() {
        None
    } else if encode_utf8(types[from].ident@) == ident {
        Some(from)
    } else {
        ident_index(types, ident, from + 1)
    }
}

/// Finds the field called `name`.
pub fn find_field(fields: &Vec<FieldShape>, name: &str) -> (r: Option<usize>)
    ensures
        match r {
            Some(i) => field_index(fields@, encode_utf8(name@), 0) == Some(i as int) && i
                < fields@.len(),
            None => field_index(fields@, encode_utf8(name@), 0) is None,
        },
{
    let mut i: usize = 0;
    while i < fields.len()
        invariant
            0 <= i <= fields@.len(),
            field_index(fields@, encode_utf8(name@), 0) == field_index(
                fields@,
                encode_utf8(name@),
                i as int,
            ),
        decreases fields@.len() - i,
    {
        if same_text(fields[i].name.as_str(), name) {
            return Some(i);
        }
        i += 1;
    }
    None
}

/// Finds the variant called `name`.
pub fn find_variant(variants: &Vec<VariantShape>, name: &str) -> (r: Option<usize>)
    ensures
        match r {
            Some(i) => variant_index(variants@, encode_utf8(name@), 0) == Some(i as int) && i
                < variants@.len(),
            None => variant_index(variants@, encode_utf8(name@), 0) is None,
        },
{
    let mut i: usize = 0;
    while i < variants.len()
        invariant
            0 <= i <= variants@.len(),
            variant_index(variants@, encode_utf8(name@), 0) == variant_index(
                variants@,
                encode_utf8(name@),
                i as int,
            ),
        decreases variants@.len() - i,
    {
        if same_text(variants[i].name.as_str(), name) {
            return Some(i);
        }
        i += 1;
    }
    None
}

impl TypeRegistry {
    /// Every type that a shape names is registered.
    pub open spec fn wf(&self) -> bool {
        forall|i: int|
            0 <= i < self.types@.len() ==> shape_in(
                (#[trigger] self.types@[i]).shape,
                self.types@.len() as int,
            )
    }

    /// An empty registry.
    pub fn new() -> (r: Self)
        ensures
            r.types@.len() == 0,
            r.wf(),
    {
        TypeRegistry { types: Vec::new() }
    }

    /// Finds a type by its long name.
    pub fn get_with_type_path(&self, path: &str) -> (r: Option<usize>)
        ensures
            match r {
                Some(i) => path_index(self.types@, encode_utf8(path@), 0) == Some(i as int) && i
                    < self.types@.len(),
                None => path_index(self.types@, encode_utf8(path@), 0) is None,
            },
    {
        let mut i: usize = 0;
        while i < self.types.len()
            invariant
                0 <= i <= self.types@.len(),
                path_index(self.types@, encode_utf8(path@), 0) == path_index(
                    self.types@,
                    encode_utf8(path@),
                    i as int,
                ),
            decreases self.types@.len() - i,
        {
            if same_text(self.types[i].path.as_str(), path) {
                return Some(i);
            }
            i += 1;
        }
        None
    }

    /// Finds a type by its short name. Where several types share the name,
    /// it names none of them.
    pub fn get_with_short_type_path(&self, ident: &str) -> (r: Option<usize>)
        ensures
            match r {
                Some(i) => ident_count(self.types@, encode_utf8(ident@), 0) == 1 && ident_index(
                    self.types@,
                    encode_utf8(ident@),
                    0,
                ) == Some(i as int) && i < self.types@.len(),
                None => ident_count(self.types@, encode_utf8(ident@), 0) != 1,
            },
    {
        let ghost name = encode_utf8(ident@);
        let mut found: Option<usize> = None;
        let mut i: usize = self.types.len();
        while i > 0
            invariant
                0 <= i <= self.types@.len(),
                name == encode_utf8(ident@),
                match found {
                    Some(at) => ident_count(self.types@, name, i as int) == 1 && ident_index(
                        self.types@,
                        name,
                        i as int,
                    ) == Some(at as int) && i <= at < self.types@.len(),
                    None => ident_count(self.types@, name, i as int) == 0 && ident_index(
                        self.types@,
                        name,
                        i as int,
                    ) is None,
                },
            decreases i,
        {
            i -= 1;
            if same_text(self.types[i].ident.as_str(), ident) {
                if found.is_some() {
                    proof {
                        lemma_count_grows(self.types@, name, i as int);
                    }
                    return None;
                }
                found = Some(i);
            }
        }
        found
    }
}

/// A name that stands twice or more from some offset on stands twice or more
/// from every offset in front of it.
proof fn lemma_count_grows(types: Seq<TypeRegistration>, ident: Seq<u8>, from: int)
    requires
        0 <= from <= types.len(),
    ensures
        ident_count(types, ident, 0) >= ident_count(types, ident, from),
    decreases from,
{
    if from > 0 {
        lemma_count_grows(types, ident, from - 1);
    }
}

} // verus!
