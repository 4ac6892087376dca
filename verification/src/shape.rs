//! Target shape descriptors: one variant per decode entry point the
//! typed model may request.  The decoder dispatches on the shape (and,
//! for `Any`, on the node's own kind).

use vstd::prelude::*;

verus! {

broadcast use vstd::std_specs::vec::group_vec_axioms;

/// The shape of the typed value a decode call is directed at.
#[derive(Debug, PartialEq)]
pub enum Shape {
    /// The type-erased probe: mirror whatever the node holds.
    Any,
    /// The unit type.
    Unit,
    /// A unit struct.
    UnitStruct,
    /// A boolean.
    Bool,
    /// A signed 64-bit integer.
    I64,
    /// An unsigned 64-bit integer.
    U64,
    /// A double-precision float.
    Float,
    /// A single character.
    Char,
    /// An owned string.
    Str,
    /// An owned byte string.
    Bytes,
    /// A borrowed string; never satisfiable from the value tree.
    BorrowedStr,
    /// A borrowed byte slice; never satisfiable from the value tree.
    BorrowedBytes,
    /// An optional value of the inner shape.
    Option(Box<Shape>),
    /// A newtype struct, decoded transparently from the same node.
    NewtypeStruct(Box<Shape>),
    /// A tuple, fixed array, or tuple struct: one shape per element.
    Tuple(Vec<Shape>),
    /// A homogeneous sequence of the inner shape.
    List(Box<Shape>),
    /// A map with homogeneous key and value shapes.
    Dict(Box<Shape>, Box<Shape>),
    /// A record with named fields, in declaration order.
    Record(Vec<(String, Shape)>),
    /// An enum: its variants by name, in declaration order.
    Enum(Vec<(String, VariantShape)>),
    /// A value the typed model skips: always succeeds, node discarded.
    Ignored,
}

/// The payload shape of one enum variant.
#[derive(Debug, PartialEq)]
pub enum VariantShape {
    /// No payload.
    Unit,
    /// A single wrapped value.
    Newtype(Box<Shape>),
    /// An ordered list of payload elements.
    Tuple(Vec<Shape>),
    /// Named payload fields, in declaration order.
    Struct(Vec<(String, Shape)>),
}

/// The mathematical abstraction of a [`Shape`].
pub enum ShapeV {
    Any,
    Unit,
    UnitStruct,
    Bool,
    I64,
    U64,
    Float,
    Char,
    Str,
    Bytes,
    BorrowedStr,
    BorrowedBytes,
    Option(Box<ShapeV>),
    NewtypeStruct(Box<ShapeV>),
    Tuple(Seq<ShapeV>),
    List(Box<ShapeV>),
    Dict(Box<ShapeV>, Box<ShapeV>),
    Record(Seq<(Seq<char>, ShapeV)>),
    Enum(Seq<(Seq<char>, VariantShapeV)>),
    Ignored,
}

/// The mathematical abstraction of a [`VariantShape`].
pub enum VariantShapeV {
    Unit,
    Newtype(Box<ShapeV>),
    Tuple(Seq<ShapeV>),
    Struct(Seq<(Seq<char>, ShapeV)>),
}

/// The abstraction function from a shape to its mathematical view.
pub open spec fn shape_view(shape: Shape) -> ShapeV
    decreases shape, 1int,
{
    match shape {
        Shape::Any => ShapeV::Any,
        Shape::Unit => ShapeV::Unit,
        Shape::UnitStruct => ShapeV::UnitStruct,
        Shape::Bool => ShapeV::Bool,
        Shape::I64 => ShapeV::I64,
        Shape::U64 => ShapeV::U64,
        Shape::Float => ShapeV::Float,
        Shape::Char => ShapeV::Char,
        Shape::Str => ShapeV::Str,
        Shape::Bytes => ShapeV::Bytes,
        Shape::BorrowedStr => ShapeV::BorrowedStr,
        Shape::BorrowedBytes => ShapeV::BorrowedBytes,
        Shape::Option(inner) => ShapeV::Option(Box::new(shape_view(*inner))),
        Shape::NewtypeStruct(inner) => ShapeV::NewtypeStruct(Box::new(shape_view(*inner))),
        Shape::Tuple(elems) => ShapeV::Tuple(shape_seq_view(elems@)),
        Shape::List(inner) => ShapeV::List(Box::new(shape_view(*inner))),
        Shape::Dict(key, val) => ShapeV::Dict(
            Box::new(shape_view(*key)),
            Box::new(shape_view(*val)),
        ),
        Shape::Record(fields) => ShapeV::Record(shape_field_seq_view(fields@)),
        Shape::Enum(variants) => ShapeV::Enum(variant_seq_view(variants@)),
        Shape::Ignored => ShapeV::Ignored,
    }
}

/// The abstraction function from a variant shape to its view.
pub open spec fn variant_shape_view(vs: VariantShape) -> VariantShapeV
    decreases vs, 0int,
{
    match vs {
        VariantShape::Unit => VariantShapeV::Unit,
        VariantShape::Newtype(inner) => VariantShapeV::Newtype(Box::new(shape_view(*inner))),
        VariantShape::Tuple(elems) => VariantShapeV::Tuple(shape_seq_view(elems@)),
        VariantShape::Struct(fields) => VariantShapeV::Struct(shape_field_seq_view(fields@)),
    }
}

/// The element-wise view of a sequence of shapes.
pub open spec fn shape_seq_view(elems: Seq<Shape>) -> Seq<ShapeV>
    decreases elems, 0int,
{
    Seq::new(
        elems.len(),
        |i: int|
            if 0 <= i < elems.len() {
                shape_view(elems[i])
            } else {
                ShapeV::Any
            },
    )
}

/// The element-wise view of a sequence of named field shapes.
pub open spec fn shape_field_seq_view(fields: Seq<(String, Shape)>) -> Seq<(Seq<char>, ShapeV)>
    decreases fields, 0int,
{
    Seq::new(
        fields.len(),
        |i: int|
            if 0 <= i < fields.len() {
                (fields[i].0@, shape_view(fields[i].1))
            } else {
                (Seq::empty(), ShapeV::Any)
            },
    )
}

/// The element-wise view of a sequence of named variant shapes.
pub open spec fn variant_seq_view(variants: Seq<(String, VariantShape)>) -> Seq<
    (Seq<char>, VariantShapeV),
>
    decreases variants, 0int,
{
    Seq::new(
        variants.len(),
        |i: int|
            if 0 <= i < variants.len() {
                (variants[i].0@, variant_shape_view(variants[i].1))
            } else {
                (Seq::empty(), VariantShapeV::Unit)
            },
    )
}

impl View for Shape {
    type V = ShapeV;

    open spec fn view(&self) -> ShapeV {
        shape_view(*self)
    }
}

impl View for VariantShape {
    type V = VariantShapeV;

    open spec fn view(&self) -> VariantShapeV {
        variant_shape_view(*self)
    }
}

} // verus!
