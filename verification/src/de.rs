//! What a typed reader is handed when it asks for the payload of an enum
//! variant in one of the four shapes that a variant can have.
//!
//! The tree allows some variants to be read in a shape that they were not
//! written in: a variant without payload stands for an empty tuple or
//! struct, and for a newtype around a value that is not there; a tuple of
//! one value, an array or a map stands for a newtype around it.
use vstd::prelude::*;
use vstd::string::StringSliceAdditionalSpecFns;
use crate::names::name_as_str;
use crate::value::{
    variant_id, CafArray, CafEnumVariant, CafMap, CafMapEntry, CafTuple, CafValue,
};

verus! {

/// The shape in which a variant was found when another was asked for.
#[derive(Debug, Clone, Copy, PartialEq, Eq, Structural)]
pub enum Unexpected {
    UnitVariant,
    NewtypeVariant,
    TupleVariant,
    StructVariant,
}

/// Where the one value of a newtype variant is read from.
#[derive(Debug)]
pub enum NewtypeSource<'de> {
    /// The one entry of a tuple.
    Entry(&'de CafValue),
    /// A tuple of none or several entries, as a whole.
    Tuple(&'de CafTuple),
    /// An array, as a whole.
    Array(&'de CafArray),
    /// A map, as a whole.
    Mapping(&'de CafMap),
    /// No value is there: the newtype is read from nothing.
    Erased,
}

/// Where the fields of a tuple variant are read from.
#[derive(Debug)]
pub enum TupleSource<'de> {
    /// The entries of a tuple.
    Entries(&'de Vec<CafValue>),
    /// No entries: the tuple has no fields.
    Empty,
    /// No entries: the one field is read from nothing.
    WrappedErased,
}

/// Where the fields of a struct variant are read from.
#[derive(Debug)]
pub enum StructSource<'de> {
    /// The entries of a map.
    Entries(&'de Vec<CafMapEntry>),
    /// No entries: the struct has no fields.
    Empty,
}

/// The shape that a variant has for a reader that cannot take it.
pub open spec fn unexpected_shape(variant: CafEnumVariant) -> Unexpected {
    match variant {
        CafEnumVariant::Unit { .. } => Unexpected::UnitVariant,
        CafEnumVariant::Tuple { id, tuple } => if tuple.entries@.len() == 1 {
            Unexpected::NewtypeVariant
        } else {
            Unexpected::TupleVariant
        },
        CafEnumVariant::Array { .. } => Unexpected::NewtypeVariant,
        CafEnumVariant::Mapping { .. } => Unexpected::StructVariant,
    }
}

impl CafEnumVariant {
    /// The shape that the variant has for a reader that cannot take it.
    pub fn unexpected(&self) -> (r: Unexpected)
        ensures
            r == unexpected_shape(*self),
    {
        match self {
            CafEnumVariant::Unit { .. } => Unexpected::UnitVariant,
            CafEnumVariant::Tuple { tuple, .. } => {
                if tuple.entries.len() == 1 {
                    Unexpected::NewtypeVariant
                } else {
                    Unexpected::TupleVariant
                }
            },
            CafEnumVariant::Array { .. } => Unexpected::NewtypeVariant,
            CafEnumVariant::Mapping { .. } => Unexpected::StructVariant,
        }
    }

    /// The name of the variant.
    pub fn name(&self) -> (r: &str)
        ensures
            r.spec_bytes() == variant_id(self@).name,
    {
        match self {
            CafEnumVariant::Unit { id } => name_as_str(&id.name),
            CafEnumVariant::Tuple { id, .. } => name_as_str(&id.name),
            CafEnumVariant::Array { id, .. } => name_as_str(&id.name),
            CafEnumVariant::Mapping { id, .. } => name_as_str(&id.name),
        }
    }
}

/// Access to the payload of one enum variant.
#[derive(Debug)]
pub struct VariantRefAccess<'de> {
    pub variant: &'de CafEnumVariant,
}

impl<'de> VariantRefAccess<'de> {
    pub fn new(variant: &'de CafEnumVariant) -> (r: Self)
        ensures
            r.variant == variant,
    {
        VariantRefAccess { variant }
    }

    /// A unit variant is read from a variant without payload and from no other.
    pub fn unit_variant(&self) -> (r: Result<(), Unexpected>)
        ensures
            match *self.variant {
                CafEnumVariant::Unit { .. } => r is Ok,
                _ => r == Err::<(), Unexpected>(unexpected_shape(*self.variant)),
            },
    {
        match self.variant {
            CafEnumVariant::Unit { .. } => Ok(()),
            _ => Err(self.variant.unexpected()),
        }
    }

    /// A newtype variant is read from the one entry of a tuple, or from a
    /// tuple of none or several entries, an array or a map as a whole, or
    /// from nothing where the variant has no payload.
    pub fn newtype_variant(&self) -> (r: NewtypeSource<'de>)
        ensures
            match *self.variant {
                CafEnumVariant::Tuple { id, tuple } => if tuple.entries@.len() == 1 {
                    r matches NewtypeSource::Entry(e) && *e == tuple.entries@[0]
                } else {
                    r matches NewtypeSource::Tuple(t) && *t == tuple
                },
                CafEnumVariant::Array { id, array } => r matches NewtypeSource::Array(a) && *a
                    == array,
                CafEnumVariant::Mapping { id, map } => r matches NewtypeSource::Mapping(m) && *m
                    == map,
                CafEnumVariant::Unit { .. } => r is Erased,
            },
    {
        match self.variant {
            CafEnumVariant::Tuple { tuple, .. } => {
                if tuple.entries.len() == 1 {
                    NewtypeSource::Entry(&tuple.entries[0])
                } else {
                    NewtypeSource::Tuple(tuple)
                }
            },
            // Special cases: enum variant flattening
            CafEnumVariant::Array { array, .. } => NewtypeSource::Array(array),
            CafEnumVariant::Mapping { map, .. } => NewtypeSource::Mapping(map),
            CafEnumVariant::Unit { .. } => NewtypeSource::Erased,
        }
    }

    /// A tuple variant of `len` fields is read from the entries of a tuple;
    /// where the variant has no payload, it is read from nothing if it has
    /// no field or one, and from no other variant.
    pub fn tuple_variant(&self, len: usize) -> (r: Result<TupleSource<'de>, Unexpected>)
        ensures
            match *self.variant {
                CafEnumVariant::Tuple { id, tuple } => r matches Ok(TupleSource::Entries(es))
                    && *es == tuple.entries,
                CafEnumVariant::Unit { .. } => if len == 0 {
                    r matches Ok(TupleSource::Empty)
                } else if len == 1 {
                    r matches Ok(TupleSource::WrappedErased)
                } else {
                    r matches Err(e) && e == Unexpected::UnitVariant
                },
                _ => r matches Err(e) && e == unexpected_shape(*self.variant),
            },
    {
        match self.variant {
            CafEnumVariant::Tuple { tuple, .. } => Ok(TupleSource::Entries(&tuple.entries)),
            // Special case: flattened
            CafEnumVariant::Unit { .. } => {
                if len == 0 {
                    Ok(TupleSource::Empty)
                } else if len == 1 {
                    Ok(TupleSource::WrappedErased)
                } else {
                    Err(self.variant.unexpected())
                }
            },
            _ => Err(self.variant.unexpected()),
        }
    }

    /// A struct variant is read from the entries of a map, from nothing
    /// where the variant has no payload, and from no other variant.
    pub fn struct_variant(&self) -> (r: Result<StructSource<'de>, Unexpected>)
        ensures
            match *self.variant {
                CafEnumVariant::Mapping { id, map } => r matches Ok(StructSource::Entries(es))
                    && *es == map.entries,
                CafEnumVariant::Unit { .. } => r matches Ok(StructSource::Empty),
                _ => r matches Err(e) && e == unexpected_shape(*self.variant),
            },
    {
        match self.variant {
            CafEnumVariant::Mapping { map, .. } => Ok(StructSource::Entries(&map.entries)),
            // Special case: flattened
            CafEnumVariant::Unit { .. } => Ok(StructSource::Empty),
            _ => Err(self.variant.unexpected()),
        }
    }
}

} // verus!
