//! The typed data model: the statically shaped values the calling
//! program works with, materialized as one sum type so that the codec's
//! behaviour can be stated for every composition of shapes.

use vstd::prelude::*;

verus! {

broadcast use vstd::std_specs::vec::group_vec_axioms;

/// One value of the typed data model.
///
/// Floating-point payloads are carried as their IEEE-754 bit pattern;
/// the host integration layer converts at the boundary.
#[derive(Debug, PartialEq)]
pub enum Value {
    /// The unit value.
    Unit,
    /// A unit struct.
    UnitStruct,
    /// A boolean.
    Bool(bool),
    /// A signed 64-bit integer (every signed width widens to this).
    I64(i64),
    /// An unsigned 64-bit integer (every unsigned width widens to this).
    U64(u64),
    /// A double-precision float, by its IEEE-754 bit pattern.
    Float(u64),
    /// A single character.
    Char(char),
    /// An owned string.
    Str(String),
    /// An owned byte string.
    Bytes(Vec<u8>),
    /// An optional value.
    Opt(Option<Box<Value>>),
    /// A newtype struct around its wrapped value.
    Newtype(Box<Value>),
    /// A tuple, fixed array, or tuple struct.
    Tuple(Vec<Value>),
    /// A homogeneous sequence.
    List(Vec<Value>),
    /// A map, as key/value pairs in encounter order.
    Dict(Vec<(Value, Value)>),
    /// A record with named fields, in declaration order.
    Record(Vec<(String, Value)>),
    /// An enum value: the variant's name and its payload.
    Variant(String, VariantPayload),
}

/// The payload of one enum value.
#[derive(Debug, PartialEq)]
pub enum VariantPayload {
    /// No payload.
    Unit,
    /// A single wrapped value.
    Newtype(Box<Value>),
    /// An ordered list of payload elements.
    Tuple(Vec<Value>),
    /// Named payload fields, in declaration order.
    Struct(Vec<(String, Value)>),
}

/// The mathematical abstraction of a [`Value`].
pub enum ValueV {
    Unit,
    UnitStruct,
    Bool(bool),
    I64(i64),
    U64(u64),
    Float(u64),
    Char(char),
    Str(Seq<char>),
    Bytes(Seq<u8>),
    Opt(Option<Box<ValueV>>),
    Newtype(Box<ValueV>),
    Tuple(Seq<ValueV>),
    List(Seq<ValueV>),
    Dict(Seq<(ValueV, ValueV)>),
    Record(Seq<(Seq<char>, ValueV)>),
    Variant(Seq<char>, VariantPayloadV),
}

/// The mathematical abstraction of a [`VariantPayload`].
pub enum VariantPayloadV {
    Unit,
    Newtype(Box<ValueV>),
    Tuple(Seq<ValueV>),
    Struct(Seq<(Seq<char>, ValueV)>),
}

/// The abstraction function from a typed value to its mathematical view.
pub open spec fn value_view(value: Value) -> ValueV
    decreases value, 1int,
{
    match value {
        Value::Unit => ValueV::Unit,
        Value::UnitStruct => ValueV::UnitStruct,
        Value::Bool(b) => ValueV::Bool(b),
        Value::I64(i) => ValueV::I64(i),
        Value::U64(u) => ValueV::U64(u),
        Value::Float(bits) => ValueV::Float(bits),
        Value::Char(c) => ValueV::Char(c),
        Value::Str(s) => ValueV::Str(s@),
        Value::Bytes(b) => ValueV::Bytes(b@),
        Value::Opt(opt) => ValueV::Opt(
            match opt {
                Option::None => Option::None,
                Option::Some(inner) => Option::Some(Box::new(value_view(*inner))),
            },
        ),
        Value::Newtype(inner) => ValueV::Newtype(Box::new(value_view(*inner))),
        Value::Tuple(elems) => ValueV::Tuple(value_seq_view(elems@)),
        Value::List(elems) => ValueV::List(value_seq_view(elems@)),
        Value::Dict(entries) => ValueV::Dict(pair_seq_view(entries@)),
        Value::Record(fields) => ValueV::Record(field_seq_view(fields@)),
        Value::Variant(name, payload) => ValueV::Variant(name@, variant_payload_view(payload)),
    }
}

/// The element-wise view of a sequence of typed values.
pub open spec fn value_seq_view(elems: Seq<Value>) -> Seq<ValueV>
    decreases elems, 0int,
{
    Seq::new(
        elems.len(),
        |i: int|
            if 0 <= i < elems.len() {
                value_view(elems[i])
            } else {
                ValueV::Unit
            },
    )
}

/// The element-wise view of a sequence of named fields.
pub open spec fn field_seq_view(fields: Seq<(String, Value)>) -> Seq<(Seq<char>, ValueV)>
    decreases fields, 0int,
{
    Seq::new(
        fields.len(),
        |i: int|
            if 0 <= i < fields.len() {
                (fields[i].0@, value_view(fields[i].1))
            } else {
                (Seq::empty(), ValueV::Unit)
            },
    )
}

/// The element-wise view of a sequence of key/value pairs.
pub open spec fn pair_seq_view(entries: Seq<(Value, Value)>) -> Seq<(ValueV, ValueV)>
    decreases entries, 0int,
{
    Seq::new(
        entries.len(),
        |i: int|
            if 0 <= i < entries.len() {
                (value_view(entries[i].0), value_view(entries[i].1))
            } else {
                (ValueV::Unit, ValueV::Unit)
            },
    )
}

/// The abstraction function from a variant payload to its view.
pub open spec fn variant_payload_view(payload: VariantPayload) -> VariantPayloadV
    decreases payload, 0int,
{
    match payload {
        VariantPayload::Unit => VariantPayloadV::Unit,
        VariantPayload::Newtype(inner) => VariantPayloadV::Newtype(Box::new(value_view(*inner))),
        VariantPayload::Tuple(elems) => VariantPayloadV::Tuple(value_seq_view(elems@)),
        VariantPayload::Struct(fields) => VariantPayloadV::Struct(field_seq_view(fields@)),
    }
}

impl View for Value {
    type V = ValueV;

    open spec fn view(&self) -> ValueV {
        value_view(*self)
    }
}

impl View for VariantPayload {
    type V = VariantPayloadV;

    open spec fn view(&self) -> VariantPayloadV {
        variant_payload_view(*self)
    }
}

} // verus!
