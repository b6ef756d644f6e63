//! Type descriptors directing a typed decode.
//!
//! A `Shape` tells the decoder which visit to perform for the next value,
//! the way a type-directed generic framework would: which scalar width to
//! parse, which field names a struct declares, which variants an enum has.

use vstd::prelude::*;

verus! {

/// The shape of one value to decode.
#[derive(Debug, PartialEq, Eq)]
pub enum Shape {
    /// A boolean scalar, classified by the literal families.
    Bool,
    /// Signed integer scalars of each width.
    I8,
    I16,
    I32,
    I64,
    /// Unsigned integer scalars of each width.
    U8,
    U16,
    U32,
    U64,
    /// A scalar that must hold exactly one character.
    Char,
    /// Scalar text, taken as-is.
    Str,
    /// The null literal family only.
    Unit,
    /// An optional value: a null literal is absence, anything else decodes
    /// as the inner shape.
    Optional(Box<Shape>),
    /// A sequence of elements of one shape.
    SequenceOf(Box<Shape>),
    /// A fixed-arity sequence, one shape per position.
    TupleOf(Vec<Shape>),
    /// A mapping with declared fields, by name.
    StructOf(Vec<FieldShape>),
    /// A free mapping: every key has one shape, every value another.
    MapOf(Box<Shape>, Box<Shape>),
    /// An enum with the declared variants, each with the shape of its
    /// payload: [`Shape::Unit`] for a unit variant (a bare tag with no
    /// payload), [`Shape::TupleOf`] for a tuple variant, [`Shape::StructOf`]
    /// for a struct variant, and any other shape for a newtype variant.
    EnumOf(Vec<VariantDecl>),
    /// Self-describing: classify by the next event alone.
    Any,
}

/// One declared struct field: its name and the shape of its value.
#[derive(Debug, PartialEq, Eq)]
pub struct FieldShape {
    pub name: String,
    pub shape: Shape,
}

/// One declared enum variant: its tag and the shape of its payload.
#[derive(Debug, PartialEq, Eq)]
pub struct VariantDecl {
    pub tag: String,
    pub payload: Shape,
}

} // verus!
