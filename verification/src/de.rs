//! The decoder: given a value-tree node and a target shape, dispatches
//! on the node's runtime kind and recursively constructs the typed
//! value.
//!
//! The spec functions in this module state exactly what decoding
//! returns — value or failure kind — for every node and shape; the
//! executable functions are proved against them.

use vstd::prelude::*;
use vstd::string::StrSliceExecFns;
use vstd::string::StringExecFns;

use crate::cursor::{MappingCursor, SequenceCursor};
use crate::error::{Error, ErrorKind};
use crate::node::{node_pair_seq_view, node_seq_view, node_view, Node, NodeV};
use crate::shape::{
    shape_field_seq_view, shape_seq_view, variant_seq_view, variant_shape_view, Shape, ShapeV,
    VariantShape, VariantShapeV,
};
use crate::value::{Value, ValueV, VariantPayload, VariantPayloadV};

verus! {

broadcast use vstd::std_specs::vec::group_vec_axioms;

/// The index of the first entry with the given name, if any.
pub open spec fn spec_find_named<T>(items: Seq<(Seq<char>, T)>, name: Seq<char>) -> Option<int>
    decreases items,
{
    if items.len() == 0 {
        Option::None
    } else if items[0].0 == name {
        Option::Some(0int)
    } else {
        match spec_find_named(items.drop_first(), name) {
            Option::None => Option::None,
            Option::Some(i) => Option::Some(i + 1),
        }
    }
}

/// The found index is in range, names the sought field, and is the
/// first occurrence; a miss means no entry has the name.
pub proof fn lemma_spec_find_named<T>(items: Seq<(Seq<char>, T)>, name: Seq<char>)
    ensures
        match spec_find_named(items, name) {
            Option::Some(j) => 0 <= j < items.len() && items[j].0 == name && (forall|i: int|
                0 <= i < j ==> (#[trigger] items[i]).0 != name),
            Option::None => forall|i: int|
                0 <= i < items.len() ==> (#[trigger] items[i]).0 != name,
        },
    decreases items.len(),
{
    if items.len() > 0 && items[0].0 != name {
        let rest = items.drop_first();
        lemma_spec_find_named(rest, name);
        assert(forall|i: int| 0 <= i < rest.len() ==> #[trigger] rest[i] == items[i + 1]);
        match spec_find_named(rest, name) {
            Option::Some(j) => {
                assert(spec_find_named(items, name) == Option::Some(j + 1));
                assert(items[j + 1].0 == name);
                assert forall|i: int| 0 <= i < j + 1 implies (#[trigger] items[i]).0 != name by {
                    if i > 0 {
                        assert(items[i] == rest[i - 1]);
                    }
                }
            }
            Option::None => {
                assert forall|i: int| 0 <= i < items.len() implies (#[trigger] items[i]).0
                    != name by {
                    if i > 0 {
                        assert(items[i] == rest[i - 1]);
                    }
                }
            }
        }
    }
}

/// What decoding returns for every node and target shape: the typed
/// value, or the kind of the failure.
pub open spec fn spec_decode(n: NodeV, s: ShapeV) -> Result<ValueV, ErrorKind>
    decreases n, s, 0int,
{
    match s {
        ShapeV::Any => match n {
            NodeV::Null => Result::Ok(ValueV::Unit),
            NodeV::Bool(b) => Result::Ok(ValueV::Bool(b)),
            NodeV::Int(i) => Result::Ok(ValueV::I64(i)),
            NodeV::Float(bits) => Result::Ok(ValueV::Float(bits)),
            NodeV::Str(t) => Result::Ok(ValueV::Str(t)),
            NodeV::Sym(t) => Result::Ok(ValueV::Str(t)),
            NodeV::Bytes(_) => Result::Err(ErrorKind::UnsupportedType),
            NodeV::Arr(items) => match spec_decode_seq(items, ShapeV::Any) {
                Result::Ok(elems) => Result::Ok(ValueV::List(elems)),
                Result::Err(k) => Result::Err(k),
            },
            NodeV::Hash(entries) => match spec_decode_pairs(entries, ShapeV::Any, ShapeV::Any) {
                Result::Ok(pairs) => Result::Ok(ValueV::Dict(pairs)),
                Result::Err(k) => Result::Err(k),
            },
        },
        ShapeV::Unit => match n {
            NodeV::Null => Result::Ok(ValueV::Unit),
            _ => Result::Err(ErrorKind::TypeMismatch),
        },
        ShapeV::UnitStruct => match n {
            NodeV::Null => Result::Ok(ValueV::UnitStruct),
            _ => Result::Err(ErrorKind::TypeMismatch),
        },
        ShapeV::Bool => match n {
            NodeV::Bool(b) => Result::Ok(ValueV::Bool(b)),
            _ => Result::Err(ErrorKind::TypeMismatch),
        },
        ShapeV::I64 => match n {
            NodeV::Int(i) => Result::Ok(ValueV::I64(i)),
            _ => Result::Err(ErrorKind::TypeMismatch),
        },
        ShapeV::U64 => match n {
            NodeV::Int(i) => if i >= 0 {
                Result::Ok(ValueV::U64(i as u64))
            } else {
                Result::Err(ErrorKind::IntegerOverflow)
            },
            _ => Result::Err(ErrorKind::TypeMismatch),
        },
        ShapeV::Float => match n {
            NodeV::Float(bits) => Result::Ok(ValueV::Float(bits)),
            _ => Result::Err(ErrorKind::TypeMismatch),
        },
        ShapeV::Char => match n {
            NodeV::Str(t) => if t.len() == 1 {
                Result::Ok(ValueV::Char(t[0]))
            } else {
                Result::Err(ErrorKind::TypeMismatch)
            },
            NodeV::Sym(t) => if t.len() == 1 {
                Result::Ok(ValueV::Char(t[0]))
            } else {
                Result::Err(ErrorKind::TypeMismatch)
            },
            _ => Result::Err(ErrorKind::TypeMismatch),
        },
        ShapeV::Str => match n {
            NodeV::Str(t) => Result::Ok(ValueV::Str(t)),
            NodeV::Sym(t) => Result::Ok(ValueV::Str(t)),
            _ => Result::Err(ErrorKind::TypeMismatch),
        },
        ShapeV::Bytes => match n {
            NodeV::Str(t) => Result::Ok(ValueV::Bytes(vstd::utf8::encode_utf8(t))),
            NodeV::Bytes(b) => Result::Ok(ValueV::Bytes(b)),
            _ => Result::Err(ErrorKind::TypeMismatch),
        },
        ShapeV::BorrowedStr => Result::Err(ErrorKind::UnsupportedBorrow),
        ShapeV::BorrowedBytes => Result::Err(ErrorKind::UnsupportedBorrow),
        ShapeV::Option(inner) => match n {
            NodeV::Null => Result::Ok(ValueV::Opt(Option::None)),
            _ => match spec_decode(n, *inner) {
                Result::Ok(v) => Result::Ok(ValueV::Opt(Option::Some(Box::new(v)))),
                Result::Err(k) => Result::Err(k),
            },
        },
        ShapeV::NewtypeStruct(inner) => match spec_decode(n, *inner) {
            Result::Ok(v) => Result::Ok(ValueV::Newtype(Box::new(v))),
            Result::Err(k) => Result::Err(k),
        },
        ShapeV::Tuple(shapes) => match n {
            NodeV::Arr(items) => if items.len() < shapes.len() {
                Result::Err(ErrorKind::Message)
            } else {
                match spec_decode_zip(items, shapes) {
                    Result::Ok(elems) => Result::Ok(ValueV::Tuple(elems)),
                    Result::Err(k) => Result::Err(k),
                }
            },
            _ => Result::Err(ErrorKind::TypeMismatch),
        },
        ShapeV::List(inner) => match n {
            NodeV::Arr(items) => match spec_decode_seq(items, *inner) {
                Result::Ok(elems) => Result::Ok(ValueV::List(elems)),
                Result::Err(k) => Result::Err(k),
            },
            _ => Result::Err(ErrorKind::TypeMismatch),
        },
        ShapeV::Dict(key_shape, val_shape) => match n {
            NodeV::Hash(entries) => match spec_decode_pairs(entries, *key_shape, *val_shape) {
                Result::Ok(pairs) => Result::Ok(ValueV::Dict(pairs)),
                Result::Err(k) => Result::Err(k),
            },
            _ => Result::Err(ErrorKind::TypeMismatch),
        },
        ShapeV::Record(fields) => match n {
            NodeV::Hash(entries) => match spec_decode_record(entries, fields) {
                Result::Ok(decoded) => Result::Ok(ValueV::Record(decoded)),
                Result::Err(k) => Result::Err(k),
            },
            _ => Result::Err(ErrorKind::TypeMismatch),
        },
        ShapeV::Enum(variants) => match n {
            NodeV::Str(name) => match spec_find_named(variants, name) {
                Option::None => Result::Err(ErrorKind::Message),
                Option::Some(j) => match variants[j].1 {
                    VariantShapeV::Unit => Result::Ok(
                        ValueV::Variant(name, VariantPayloadV::Unit),
                    ),
                    VariantShapeV::Newtype(inner) => match spec_decode_null(*inner) {
                        Result::Ok(v) => Result::Ok(
                            ValueV::Variant(name, VariantPayloadV::Newtype(Box::new(v))),
                        ),
                        Result::Err(k) => Result::Err(k),
                    },
                    VariantShapeV::Tuple(_) => Result::Err(ErrorKind::TypeMismatch),
                    VariantShapeV::Struct(_) => Result::Err(ErrorKind::TypeMismatch),
                },
            },
            NodeV::Hash(entries) => if entries.len() != 1 {
                Result::Err(ErrorKind::InvalidEnumArity)
            } else {
                match entries[0].0 {
                    NodeV::Str(name) => spec_decode_enum_entry(name, entries[0].1, variants),
                    NodeV::Sym(name) => spec_decode_enum_entry(name, entries[0].1, variants),
                    _ => Result::Err(ErrorKind::TypeMismatch),
                }
            },
            _ => Result::Err(ErrorKind::TypeMismatch),
        },
        ShapeV::Ignored => Result::Ok(ValueV::Unit),
    }
}

/// Decoding of a single-entry enum envelope, given its key's text, its
/// payload node, and the enum's variants.
pub open spec fn spec_decode_enum_entry(
    name: Seq<char>,
    payload: NodeV,
    variants: Seq<(Seq<char>, VariantShapeV)>,
) -> Result<ValueV, ErrorKind>
    decreases payload, variants, 0int,
{
    match spec_find_named(variants, name) {
        Option::None => Result::Err(ErrorKind::Message),
        Option::Some(j) => {
            proof {
                lemma_spec_find_named(variants, name);
                assert(decreases_to!(variants => variants[j]));
                assert(decreases_to!(variants[j] => variants[j].1));
            }
            match spec_decode_variant(payload, variants[j].1) {
                Result::Ok(p) => Result::Ok(ValueV::Variant(name, p)),
                Result::Err(k) => Result::Err(k),
            }
        },
    }
}

/// Decoding of an enum variant's payload node against the variant's
/// declared kind.
pub open spec fn spec_decode_variant(payload: NodeV, kind: VariantShapeV) -> Result<
    VariantPayloadV,
    ErrorKind,
>
    decreases payload, kind, 0int,
{
    match kind {
        VariantShapeV::Unit => match payload {
            NodeV::Null => Result::Ok(VariantPayloadV::Unit),
            _ => Result::Err(ErrorKind::TypeMismatch),
        },
        VariantShapeV::Newtype(inner) => match spec_decode(payload, *inner) {
            Result::Ok(v) => Result::Ok(VariantPayloadV::Newtype(Box::new(v))),
            Result::Err(k) => Result::Err(k),
        },
        VariantShapeV::Tuple(shapes) => match payload {
            NodeV::Arr(items) => if items.len() < shapes.len() {
                Result::Err(ErrorKind::Message)
            } else {
                match spec_decode_zip(items, shapes) {
                    Result::Ok(elems) => Result::Ok(VariantPayloadV::Tuple(elems)),
                    Result::Err(k) => Result::Err(k),
                }
            },
            _ => Result::Err(ErrorKind::TypeMismatch),
        },
        VariantShapeV::Struct(fields) => match payload {
            NodeV::Hash(entries) => match spec_decode_record(entries, fields) {
                Result::Ok(decoded) => Result::Ok(VariantPayloadV::Struct(decoded)),
                Result::Err(k) => Result::Err(k),
            },
            _ => Result::Err(ErrorKind::TypeMismatch),
        },
    }
}

/// What decoding the null node returns, for every target shape.  This
/// is how a bare-string enum envelope decodes a newtype variant's
/// payload: the implicit payload is null.
pub open spec fn spec_decode_null(s: ShapeV) -> Result<ValueV, ErrorKind>
    decreases s,
{
    match s {
        ShapeV::Any => Result::Ok(ValueV::Unit),
        ShapeV::Unit => Result::Ok(ValueV::Unit),
        ShapeV::UnitStruct => Result::Ok(ValueV::UnitStruct),
        ShapeV::Option(_) => Result::Ok(ValueV::Opt(Option::None)),
        ShapeV::NewtypeStruct(inner) => match spec_decode_null(*inner) {
            Result::Ok(v) => Result::Ok(ValueV::Newtype(Box::new(v))),
            Result::Err(k) => Result::Err(k),
        },
        ShapeV::BorrowedStr => Result::Err(ErrorKind::UnsupportedBorrow),
        ShapeV::BorrowedBytes => Result::Err(ErrorKind::UnsupportedBorrow),
        ShapeV::Enum(_) => Result::Err(ErrorKind::TypeMismatch),
        ShapeV::Ignored => Result::Ok(ValueV::Unit),
        _ => Result::Err(ErrorKind::TypeMismatch),
    }
}

/// Element-wise decoding of a sequence of nodes against one shape.
pub open spec fn spec_decode_seq(ns: Seq<NodeV>, s: ShapeV) -> Result<Seq<ValueV>, ErrorKind>
    decreases ns, s, 0int,
{
    if ns.len() == 0 {
        Result::Ok(Seq::empty())
    } else {
        match spec_decode(ns[0], s) {
            Result::Err(k) => Result::Err(k),
            Result::Ok(v) => match spec_decode_seq(ns.drop_first(), s) {
                Result::Err(k) => Result::Err(k),
                Result::Ok(rest) => Result::Ok(seq![v] + rest),
            },
        }
    }
}

/// Pairwise decoding of nodes against their respective shapes; the two
/// sequences have equal length.
pub open spec fn spec_decode_zip(ns: Seq<NodeV>, shapes: Seq<ShapeV>) -> Result<
    Seq<ValueV>,
    ErrorKind,
>
    decreases ns, shapes, 0int,
{
    if ns.len() == 0 || shapes.len() == 0 {
        Result::Ok(Seq::empty())
    } else {
        match spec_decode(ns[0], shapes[0]) {
            Result::Err(k) => Result::Err(k),
            Result::Ok(v) => match spec_decode_zip(ns.drop_first(), shapes.drop_first()) {
                Result::Err(k) => Result::Err(k),
                Result::Ok(rest) => Result::Ok(seq![v] + rest),
            },
        }
    }
}

/// Entry-wise decoding of a mapping's pairs: each key against the key
/// shape, each value against the value shape, in entry order.
pub open spec fn spec_decode_pairs(
    entries: Seq<(NodeV, NodeV)>,
    key_shape: ShapeV,
    val_shape: ShapeV,
) -> Result<Seq<(ValueV, ValueV)>, ErrorKind>
    decreases entries, key_shape, 0int,
{
    if entries.len() == 0 {
        Result::Ok(Seq::empty())
    } else {
        match spec_decode(entries[0].0, key_shape) {
            Result::Err(k) => Result::Err(k),
            Result::Ok(key) => match spec_decode(entries[0].1, val_shape) {
                Result::Err(k) => Result::Err(k),
                Result::Ok(val) => match spec_decode_pairs(
                    entries.drop_first(),
                    key_shape,
                    val_shape,
                ) {
                    Result::Err(k) => Result::Err(k),
                    Result::Ok(rest) => Result::Ok(seq![(key, val)] + rest),
                },
            },
        }
    }
}

/// Record decoding: walks the mapping's entries in order, matching each
/// key against the declared fields; unknown, duplicate, and missing
/// fields are the typed model's own validation failures.  The decoded
/// record lists its fields in declaration order.
pub open spec fn spec_decode_record(
    entries: Seq<(NodeV, NodeV)>,
    fields: Seq<(Seq<char>, ShapeV)>,
) -> Result<Seq<(Seq<char>, ValueV)>, ErrorKind>
    decreases entries, fields, 2int,
{
    match spec_decode_record_step(entries, fields, Seq::new(fields.len(), |i: int| Option::<ValueV>::None)) {
        Result::Err(k) => Result::Err(k),
        Result::Ok(slots) => if forall|j: int| 0 <= j < slots.len() ==> (#[trigger] slots[j])
            is Some {
            Result::Ok(
                Seq::new(
                    fields.len(),
                    |j: int|
                        if 0 <= j < fields.len() {
                            (fields[j].0, slots[j]->0)
                        } else {
                            (Seq::empty(), ValueV::Unit)
                        },
                ),
            )
        } else {
            Result::Err(ErrorKind::Message)
        },
    }
}

/// One pass over a record's entries, filling one slot per declared
/// field.
pub open spec fn spec_decode_record_step(
    entries: Seq<(NodeV, NodeV)>,
    fields: Seq<(Seq<char>, ShapeV)>,
    slots: Seq<Option<ValueV>>,
) -> Result<Seq<Option<ValueV>>, ErrorKind>
    decreases entries, fields, 1int,
{
    if entries.len() == 0 {
        Result::Ok(slots)
    } else {
        let key = entries[0].0;
        match key {
            NodeV::Str(name) => spec_decode_record_entry(name, entries, fields, slots),
            NodeV::Sym(name) => spec_decode_record_entry(name, entries, fields, slots),
            _ => Result::Err(ErrorKind::TypeMismatch),
        }
    }
}

/// One record entry: the named field is looked up, must not repeat, and
/// its value decodes against the field's shape.
pub open spec fn spec_decode_record_entry(
    name: Seq<char>,
    entries: Seq<(NodeV, NodeV)>,
    fields: Seq<(Seq<char>, ShapeV)>,
    slots: Seq<Option<ValueV>>,
) -> Result<Seq<Option<ValueV>>, ErrorKind>
    decreases entries, fields, 0int,
    when entries.len() > 0
{
    match spec_find_named(fields, name) {
        Option::None => Result::Err(ErrorKind::Message),
        Option::Some(j) => if slots[j] is Some {
            Result::Err(ErrorKind::Message)
        } else {
            match spec_decode(entries[0].1, fields[j].1) {
                Result::Err(k) => Result::Err(k),
                Result::Ok(v) => spec_decode_record_step(
                    entries.drop_first(),
                    fields,
                    slots.update(j, Option::Some(v)),
                ),
            }
        },
    }
}

/// The view of a sequence of decoded-field slots.
pub open spec fn slot_seq_view(slots: Seq<Option<Value>>) -> Seq<Option<ValueV>> {
    Seq::new(
        slots.len(),
        |i: int|
            if 0 <= i < slots.len() {
                match slots[i] {
                    Option::None => Option::None,
                    Option::Some(v) => Option::Some(crate::value::value_view(v)),
                }
            } else {
                Option::None
            },
    )
}

/// Builds a `TypeMismatch` error naming the expected shape and the
/// node's actual kind.
fn type_mismatch(expected: &str, node: &Node) -> (e: Error)
    ensures
        e.kind == ErrorKind::TypeMismatch,
{
    let mut message = String::new();
    message.append("invalid type: expected ");
    message.append(expected);
    message.append(", got ");
    message.append(node.kind_name());
    Error::new(ErrorKind::TypeMismatch, message)
}

/// Finds the first declared field with the given name.
fn find_field(fields: &Vec<(String, Shape)>, name: &String) -> (r: Option<usize>)
    ensures
        ({
            let found = spec_find_named(shape_field_seq_view(fields@), name@);
            match r {
                Option::Some(j) => found == Option::Some(j as int),
                Option::None => found is None,
            }
        }),
{
    let ghost fields_v = shape_field_seq_view(fields@);
    let mut idx: usize = 0;
    while idx < fields.len()
        invariant
            idx <= fields@.len(),
            fields_v == shape_field_seq_view(fields@),
            forall|i: int| 0 <= i < idx ==> (#[trigger] fields_v[i]).0 != name@,
        decreases fields@.len() - idx,
    {
        if fields[idx].0 == *name {
            proof {
                assert(fields_v[idx as int].0 == name@);
                lemma_spec_find_named(fields_v, name@);
            }
            return Some(idx);
        }
        idx = idx + 1;
    }
    proof {
        lemma_spec_find_named(fields_v, name@);
    }
    None
}

/// Finds the first declared enum variant with the given name.
fn find_variant(variants: &Vec<(String, VariantShape)>, name: &String) -> (r: Option<usize>)
    ensures
        ({
            let found = spec_find_named(variant_seq_view(variants@), name@);
            match r {
                Option::Some(j) => found == Option::Some(j as int),
                Option::None => found is None,
            }
        }),
{
    let ghost variants_v = variant_seq_view(variants@);
    let mut idx: usize = 0;
    while idx < variants.len()
        invariant
            idx <= variants@.len(),
            variants_v == variant_seq_view(variants@),
            forall|i: int| 0 <= i < idx ==> (#[trigger] variants_v[i]).0 != name@,
        decreases variants@.len() - idx,
    {
        if variants[idx].0 == *name {
            proof {
                assert(variants_v[idx as int].0 == name@);
                lemma_spec_find_named(variants_v, name@);
            }
            return Some(idx);
        }
        idx = idx + 1;
    }
    proof {
        lemma_spec_find_named(variants_v, name@);
    }
    None
}

/// Decodes the null node against a target shape: the implicit payload
/// of a bare-string enum envelope.
fn deserialize_null(shape: &Shape) -> (r: Result<Value, Error>)
    ensures
        spec_decode_null(shape@) matches Ok(v) ==> (r matches Ok(out) && out@ == v),
        spec_decode_null(shape@) matches Err(k) ==> (r matches Err(e) && e.kind == k),
    decreases shape,
{
    match shape {
        Shape::Any => Ok(Value::Unit),
        Shape::Unit => Ok(Value::Unit),
        Shape::UnitStruct => Ok(Value::UnitStruct),
        Shape::Option(_) => Ok(Value::Opt(None)),
        Shape::NewtypeStruct(inner) => match deserialize_null(&**inner) {
            Ok(v) => Ok(Value::Newtype(Box::new(v))),
            Err(e) => Err(e),
        },
        Shape::BorrowedStr => Err(
            Error::new(
                ErrorKind::UnsupportedBorrow,
                String::from_str("invalid type: expected a borrowed string, got unit"),
            ),
        ),
        Shape::BorrowedBytes => Err(
            Error::new(
                ErrorKind::UnsupportedBorrow,
                String::from_str("can't deserialize into byte slice"),
            ),
        ),
        Shape::Enum(_) => Err(type_mismatch("enum", &Node::Null)),
        Shape::Ignored => Ok(Value::Unit),
        _ => Err(type_mismatch("a non-null value", &Node::Null)),
    }
}

/// Whether a shape is a leaf: decoding it never recurses into
/// sub-nodes or sub-shapes.
pub open spec fn spec_scalar_shape(s: ShapeV) -> bool {
    match s {
        ShapeV::Unit => true,
        ShapeV::UnitStruct => true,
        ShapeV::Bool => true,
        ShapeV::I64 => true,
        ShapeV::U64 => true,
        ShapeV::Float => true,
        ShapeV::Char => true,
        ShapeV::Str => true,
        ShapeV::Bytes => true,
        ShapeV::BorrowedStr => true,
        ShapeV::BorrowedBytes => true,
        _ => false,
    }
}

/// Decodes a node against a leaf shape.
fn deserialize_scalar(node: &Node, shape: &Shape) -> (r: Result<Value, Error>)
    requires
        spec_scalar_shape(shape@),
    ensures
        spec_decode(node@, shape@) matches Ok(v) ==> (r matches Ok(out) && out@ == v),
        spec_decode(node@, shape@) matches Err(k) ==> (r matches Err(e) && e.kind == k),
        shape@ is BorrowedBytes ==> (r matches Err(e) && e.message@
            == "can't deserialize into byte slice"@),
        (shape@ is BorrowedStr && node@ is Str) ==> (r matches Err(e) && e.message@
            == "invalid type: expected a borrowed string, got string \""@ + node@->Str_0
            + "\""@),
{
    match shape {
        Shape::Unit => match node {
            Node::Null => Ok(Value::Unit),
            _ => Err(type_mismatch("unit", node)),
        },
        Shape::UnitStruct => match node {
            Node::Null => Ok(Value::UnitStruct),
            _ => Err(type_mismatch("unit struct", node)),
        },
        Shape::Bool => match node {
            Node::Bool(b) => Ok(Value::Bool(*b)),
            _ => Err(type_mismatch("a boolean", node)),
        },
        Shape::I64 => match node {
            Node::Int(i) => Ok(Value::I64(*i)),
            _ => Err(type_mismatch("an integer", node)),
        },
        Shape::U64 => match node {
            Node::Int(i) => {
                if *i >= 0 {
                    Ok(Value::U64(*i as u64))
                } else {
                    Err(
                        Error::new(
                            ErrorKind::IntegerOverflow,
                            String::from_str("integer out of range for the unsigned target"),
                        ),
                    )
                }
            }
            _ => Err(type_mismatch("an integer", node)),
        },
        Shape::Float => match node {
            Node::Float(bits) => Ok(Value::Float(*bits)),
            _ => Err(type_mismatch("a float", node)),
        },
        Shape::Char => match node {
            Node::Str(s) => {
                if s.as_str().unicode_len() == 1 {
                    Ok(Value::Char(s.as_str().get_char(0)))
                } else {
                    Err(type_mismatch("a character", node))
                }
            }
            Node::Sym(s) => {
                if s.as_str().unicode_len() == 1 {
                    Ok(Value::Char(s.as_str().get_char(0)))
                } else {
                    Err(type_mismatch("a character", node))
                }
            }
            _ => Err(type_mismatch("a character", node)),
        },
        Shape::Str => match node {
            Node::Str(s) => Ok(Value::Str(s.clone())),
            Node::Sym(s) => Ok(Value::Str(s.clone())),
            _ => Err(type_mismatch("a string", node)),
        },
        Shape::Bytes => match node {
            Node::Str(s) => Ok(Value::Bytes(s.as_str().as_bytes_vec())),
            Node::Bytes(b) => Ok(Value::Bytes(b.clone())),
            _ => Err(type_mismatch("a byte string", node)),
        },
        Shape::BorrowedStr => match node {
            Node::Str(s) => {
                let mut message = String::new();
                message.append("invalid type: expected a borrowed string, got string \"");
                message.append(s.as_str());
                message.append("\"");
                Err(Error::new(ErrorKind::UnsupportedBorrow, message))
            }
            _ => Err(
                Error::new(
                    ErrorKind::UnsupportedBorrow,
                    String::from_str("invalid type: expected a borrowed string"),
                ),
            ),
        },
        Shape::BorrowedBytes => Err(
            Error::new(
                ErrorKind::UnsupportedBorrow,
                String::from_str("can't deserialize into byte slice"),
            ),
        ),
        _ => Err(type_mismatch("a value", node)),
    }
}

/// Decodes a value-tree node into a typed value, directed by the
/// target shape.
///
/// The result is exactly what [`spec_decode`] states, value and
/// failure kind alike; a borrowed-string or borrowed-bytes request
/// fails with `UnsupportedBorrow` whatever the node holds.
pub fn deserialize(node: &Node, shape: &Shape) -> (r: Result<Value, Error>)
    ensures
        spec_decode(node@, shape@) matches Ok(v) ==> (r matches Ok(out) && out@ == v),
        spec_decode(node@, shape@) matches Err(k) ==> (r matches Err(e) && e.kind == k),
        shape@ is BorrowedBytes ==> (r matches Err(e) && e.message@
            == "can't deserialize into byte slice"@),
        (shape@ is BorrowedStr && node@ is Str) ==> (r matches Err(e) && e.message@
            == "invalid type: expected a borrowed string, got string \""@ + node@->Str_0
            + "\""@),
    decreases node, shape, 0int,
{
    match shape {
        Shape::Any => match node {
            Node::Null => Ok(Value::Unit),
            Node::Bool(b) => Ok(Value::Bool(*b)),
            Node::Int(i) => Ok(Value::I64(*i)),
            Node::Float(bits) => Ok(Value::Float(*bits)),
            Node::Str(s) => Ok(Value::Str(s.clone())),
            Node::Sym(s) => Ok(Value::Str(s.clone())),
            Node::Bytes(_) => Err(
                Error::new(
                    ErrorKind::UnsupportedType,
                    String::from_str("can't deserialize byte string"),
                ),
            ),
            Node::Arr(items) => match deserialize_elements(items, shape) {
                Ok(elems) => Ok(Value::List(elems)),
                Err(e) => Err(e),
            },
            Node::Hash(entries) => match deserialize_pairs(entries, shape, shape) {
                Ok(pairs) => Ok(Value::Dict(pairs)),
                Err(e) => Err(e),
            },
        },
        Shape::Option(inner) => match node {
            Node::Null => Ok(Value::Opt(None)),
            _ => match deserialize(node, &**inner) {
                Ok(v) => Ok(Value::Opt(Some(Box::new(v)))),
                Err(e) => Err(e),
            },
        },
        Shape::NewtypeStruct(inner) => match deserialize(node, &**inner) {
            Ok(v) => Ok(Value::Newtype(Box::new(v))),
            Err(e) => Err(e),
        },
        Shape::Tuple(shapes) => match node {
            Node::Arr(items) => {
                if items.len() < shapes.len() {
                    Err(Error::custom(String::from_str("invalid length")))
                } else {
                    match deserialize_zip(items, shapes) {
                        Ok(elems) => Ok(Value::Tuple(elems)),
                        Err(e) => Err(e),
                    }
                }
            }
            _ => Err(type_mismatch("an array", node)),
        },
        Shape::List(inner) => match node {
            Node::Arr(items) => match deserialize_elements(items, &**inner) {
                Ok(elems) => Ok(Value::List(elems)),
                Err(e) => Err(e),
            },
            _ => Err(type_mismatch("an array", node)),
        },
        Shape::Dict(key_shape, val_shape) => match node {
            Node::Hash(entries) => match deserialize_pairs(entries, &**key_shape, &**val_shape) {
                Ok(pairs) => Ok(Value::Dict(pairs)),
                Err(e) => Err(e),
            },
            _ => Err(type_mismatch("a hash", node)),
        },
        Shape::Record(fields) => match node {
            Node::Hash(entries) => match deserialize_record(entries, fields) {
                Ok(decoded) => Ok(Value::Record(decoded)),
                Err(e) => Err(e),
            },
            _ => Err(type_mismatch("a hash", node)),
        },
        Shape::Enum(variants) => deserialize_enum(node, variants),
        Shape::Ignored => Ok(Value::Unit),
        _ => deserialize_scalar(node, shape),
    }
}

/// Decodes a node as an enum value under the shared wire convention:
/// a bare string is a unit variant's name; a single-entry mapping is
/// the envelope of any other variant.
fn deserialize_enum(node: &Node, variants: &Vec<(String, VariantShape)>) -> (r: Result<
    Value,
    Error,
>)
    ensures
        spec_decode(node@, ShapeV::Enum(variant_seq_view(variants@))) matches Ok(v) ==> (r
            matches Ok(out) && out@ == v),
        spec_decode(node@, ShapeV::Enum(variant_seq_view(variants@))) matches Err(k) ==> (r
            matches Err(e) && e.kind == k),
    decreases node, variants, 0int,
{
    match node {
        Node::Str(name) => match find_variant(variants, name) {
            None => Err(Error::custom(String::from_str("unknown variant"))),
            Some(j) => {
                proof {
                    lemma_spec_find_named(variant_seq_view(variants@), name@);
                    assert(j < variants@.len());
                    assert(variant_seq_view(variants@)[j as int].1 == variants@[
                        j as int
                    ].1@);
                }
                match &variants[j].1 {
                VariantShape::Unit => {
                    let out = Value::Variant(name.clone(), VariantPayload::Unit);
                    proof {
                        assert(variant_shape_view(variants@[j as int].1)
                            == VariantShapeV::Unit);
                        assert(crate::value::variant_payload_view(VariantPayload::Unit)
                            == VariantPayloadV::Unit);
                        assert(out@ == ValueV::Variant(name@, VariantPayloadV::Unit));
                    }
                    Ok(out)
                }
                VariantShape::Newtype(inner) => {
                    proof {
                        assert(variant_shape_view(variants@[j as int].1)
                            == VariantShapeV::Newtype(Box::new((**inner)@)));
                    }
                    match deserialize_null(&**inner) {
                        Ok(v) => {
                            let ghost inner_view = v@;
                            let out = Value::Variant(
                                name.clone(),
                                VariantPayload::Newtype(Box::new(v)),
                            );
                            proof {
                                assert(crate::value::variant_payload_view(out->Variant_1)
                                    == VariantPayloadV::Newtype(Box::new(inner_view)));
                                assert(out@ == ValueV::Variant(
                                    name@,
                                    VariantPayloadV::Newtype(Box::new(inner_view)),
                                ));
                            }
                            Ok(out)
                        }
                        Err(e) => Err(e),
                    }
                }
                VariantShape::Tuple(_) => {
                    proof {
                        assert(variant_shape_view(variants@[j as int].1) is Tuple);
                    }
                    Err(type_mismatch("tuple variant", node))
                }
                VariantShape::Struct(_) => {
                    proof {
                        assert(variant_shape_view(variants@[j as int].1) is Struct);
                    }
                    Err(type_mismatch("struct variant", node))
                }
                }
            },
        },
        Node::Hash(entries) => {
            if entries.len() != 1 {
                Err(
                    Error::new(
                        ErrorKind::InvalidEnumArity,
                        String::from_str(
                            "can't deserialize Hash of length other than 1 to Enum",
                        ),
                    ),
                )
            } else {
                proof {
                    assert(node_pair_seq_view(entries@)[0] == (
                        entries@[0].0@,
                        entries@[0].1@,
                    ));
                }
                let name = match &entries[0].0 {
                    Node::Str(s) => s,
                    Node::Sym(s) => s,
                    _ => {
                        return Err(type_mismatch("a variant name", &entries[0].0));
                    }
                };
                match find_variant(variants, name) {
                    None => {
                        proof {
                            assert(spec_decode_enum_entry(
                                name@,
                                node_view(entries@[0].1),
                                variant_seq_view(variants@),
                            ) == Result::<ValueV, ErrorKind>::Err(ErrorKind::Message));
                        }
                        Err(Error::custom(String::from_str("unknown variant")))
                    }
                    Some(j) => {
                        proof {
                            lemma_spec_find_named(variant_seq_view(variants@), name@);
                            assert(j < variants@.len());
                            assert(variant_seq_view(variants@)[j as int] == (
                                variants@[j as int].0@,
                                variants@[j as int].1@,
                            ));
                            assert(decreases_to!(*node => *entries));
                            assert(decreases_to!(*entries => entries@));
                            assert(decreases_to!(entries@ => entries@[0]));
                            assert(decreases_to!(entries@[0] => entries@[0].1));
                        }
                        match deserialize_variant(&entries[0].1, &variants[j].1) {
                            Ok(payload) => {
                                let ghost payload_view = payload@;
                                let out = Value::Variant(name.clone(), payload);
                                proof {
                                    assert(spec_decode_enum_entry(
                                        name@,
                                        node_view(entries@[0].1),
                                        variant_seq_view(variants@),
                                    ) == Result::<ValueV, ErrorKind>::Ok(
                                        ValueV::Variant(name@, payload_view),
                                    ));
                                    assert(crate::value::variant_payload_view(out->Variant_1)
                                        == payload_view);
                                    assert(out@ == ValueV::Variant(name@, payload_view));
                                }
                                Ok(out)
                            }
                            Err(e) => {
                                proof {
                                    assert(spec_decode_enum_entry(
                                        name@,
                                        node_view(entries@[0].1),
                                        variant_seq_view(variants@),
                                    ) == Result::<ValueV, ErrorKind>::Err(e.kind));
                                }
                                Err(e)
                            }
                        }
                    },
                }
            }
        }
        _ => Err(type_mismatch("enum", node)),
    }
}

/// Decodes an enum variant payload node against the variant's declared
/// kind.
fn deserialize_variant(payload: &Node, kind: &VariantShape) -> (r: Result<VariantPayload, Error>)
    ensures
        spec_decode_variant(payload@, kind@) matches Ok(p) ==> (r matches Ok(out) && out@ == p),
        spec_decode_variant(payload@, kind@) matches Err(k) ==> (r matches Err(e) && e.kind == k),
    decreases payload, kind, 0int,
{
    match kind {
        VariantShape::Unit => match payload {
            Node::Null => Ok(VariantPayload::Unit),
            _ => Err(type_mismatch("unit variant", payload)),
        },
        VariantShape::Newtype(inner) => match deserialize(payload, &**inner) {
            Ok(v) => Ok(VariantPayload::Newtype(Box::new(v))),
            Err(e) => Err(e),
        },
        VariantShape::Tuple(shapes) => match payload {
            Node::Arr(items) => {
                if items.len() < shapes.len() {
                    Err(Error::custom(String::from_str("invalid length")))
                } else {
                    match deserialize_zip(items, shapes) {
                        Ok(elems) => Ok(VariantPayload::Tuple(elems)),
                        Err(e) => Err(e),
                    }
                }
            }
            _ => Err(type_mismatch("tuple variant", payload)),
        },
        VariantShape::Struct(fields) => match payload {
            Node::Hash(entries) => match deserialize_record(entries, fields) {
                Ok(decoded) => Ok(VariantPayload::Struct(decoded)),
                Err(e) => Err(e),
            },
            _ => Err(type_mismatch("struct variant", payload)),
        },
    }
}

/// Decodes each element of a sequence node against one shape, walking
/// the sequence with a cursor.
fn deserialize_elements(items: &Vec<Node>, shape: &Shape) -> (r: Result<Vec<Value>, Error>)
    ensures
        spec_decode_seq(node_seq_view(items@), shape@) matches Ok(vs) ==> (r matches Ok(out)
            && crate::value::value_seq_view(out@) == vs),
        spec_decode_seq(node_seq_view(items@), shape@) matches Err(k) ==> (r matches Err(e)
            && e.kind == k),
    decreases items, shape, 0int,
{
    let ghost items_v = node_seq_view(items@);
    let mut out: Vec<Value> = Vec::new();
    let mut cursor = SequenceCursor::new(items);
    proof {
        assert(items_v.skip(0) =~= items_v);
        assert(crate::value::value_seq_view(out@) =~= Seq::<ValueV>::empty());
        assert forall|rest: Seq<ValueV>| true implies Seq::<ValueV>::empty() + rest =~= rest by {}
    }
    loop
        invariant
            cursor.source() == items@,
            items_v == node_seq_view(items@),
            cursor.position() <= items@.len(),
            out@.len() == cursor.position(),
            ({
                let done = crate::value::value_seq_view(out@);
                match spec_decode_seq(items_v.skip(cursor.position() as int), shape@) {
                    Result::Ok(rest) => spec_decode_seq(items_v, shape@) == Result::<
                        Seq<ValueV>,
                        ErrorKind,
                    >::Ok(done + rest),
                    Result::Err(k) => spec_decode_seq(items_v, shape@) == Result::<
                        Seq<ValueV>,
                        ErrorKind,
                    >::Err(k),
                }
            }),
        ensures
            spec_decode_seq(items_v, shape@) == Result::<Seq<ValueV>, ErrorKind>::Ok(
                crate::value::value_seq_view(out@),
            ),
        decreases items@.len() - cursor.position(),
    {
        let ghost pos = cursor.position() as int;
        match cursor.next() {
            None => {
                proof {
                    assert(items_v.skip(pos) =~= Seq::empty());
                    assert(crate::value::value_seq_view(out@) + Seq::empty() =~= crate::value::value_seq_view(out@));
                }
                break;
            }
            Some(element) => {
                proof {
                    assert(decreases_to!(*items => items@));
                    assert(decreases_to!(items@ => items@[pos]));
                    assert(items_v.skip(pos)[0] == items_v[pos]);
                    assert(element@ == items_v[pos]);
                }
                match deserialize(element, shape) {
                    Ok(v) => {
                        let ghost old_out = out@;
                        out.push(v);
                        proof {
                            assert(items_v.skip(pos).drop_first() =~= items_v.skip(pos + 1));
                            assert(crate::value::value_seq_view(out@) =~= crate::value::value_seq_view(old_out).push(v@));
                            assert forall|rest: Seq<ValueV>|
                                true implies crate::value::value_seq_view(old_out) + (seq![v@]
                                + rest) =~= crate::value::value_seq_view(out@) + rest by {}
                        }
                    }
                    Err(e) => {
                        proof {
                            assert(items_v.skip(pos)[0] == items_v[pos]);
                        }
                        return Err(e);
                    }
                }
            }
        }
    }
    Ok(out)
}

/// Decodes the elements of a sequence node pairwise against a list of
/// shapes; elements past the shapes are ignored.
fn deserialize_zip(items: &Vec<Node>, shapes: &Vec<Shape>) -> (r: Result<Vec<Value>, Error>)
    requires
        items@.len() >= shapes@.len(),
    ensures
        spec_decode_zip(node_seq_view(items@), shape_seq_view(shapes@)) matches Ok(vs) ==> (r
            matches Ok(out) && crate::value::value_seq_view(out@) == vs),
        spec_decode_zip(node_seq_view(items@), shape_seq_view(shapes@)) matches Err(k) ==> (r
            matches Err(e) && e.kind == k),
    decreases items, shapes, 0int,
{
    let ghost items_v = node_seq_view(items@);
    let ghost shapes_v = shape_seq_view(shapes@);
    let mut out: Vec<Value> = Vec::new();
    let mut idx: usize = 0;
    proof {
        assert(items_v.skip(0) =~= items_v);
        assert(shapes_v.skip(0) =~= shapes_v);
        assert(crate::value::value_seq_view(out@) =~= Seq::<ValueV>::empty());
        assert forall|rest: Seq<ValueV>| true implies Seq::<ValueV>::empty() + rest =~= rest by {}
    }
    while idx < shapes.len()
        invariant
            idx <= shapes@.len(),
            items@.len() >= shapes@.len(),
            items_v == node_seq_view(items@),
            shapes_v == shape_seq_view(shapes@),
            out@.len() == idx,
            ({
                let done = crate::value::value_seq_view(out@);
                match spec_decode_zip(items_v.skip(idx as int), shapes_v.skip(idx as int)) {
                    Result::Ok(rest) => spec_decode_zip(items_v, shapes_v) == Result::<
                        Seq<ValueV>,
                        ErrorKind,
                    >::Ok(done + rest),
                    Result::Err(k) => spec_decode_zip(items_v, shapes_v) == Result::<
                        Seq<ValueV>,
                        ErrorKind,
                    >::Err(k),
                }
            }),
        decreases shapes@.len() - idx,
    {
        let ghost pos = idx as int;
        proof {
            assert(decreases_to!(*items => items@));
            assert(decreases_to!(items@ => items@[pos]));
            assert(items_v.skip(pos)[0] == items_v[pos]);
            assert(shapes_v.skip(pos)[0] == shapes_v[pos]);
        }
        match deserialize(&items[idx], &shapes[idx]) {
            Ok(v) => {
                let ghost old_out = out@;
                out.push(v);
                proof {
                    assert(items_v.skip(pos).drop_first() =~= items_v.skip(pos + 1));
                    assert(shapes_v.skip(pos).drop_first() =~= shapes_v.skip(pos + 1));
                    assert(crate::value::value_seq_view(out@) =~= crate::value::value_seq_view(
                        old_out,
                    ).push(v@));
                    assert forall|rest: Seq<ValueV>|
                        true implies crate::value::value_seq_view(old_out) + (seq![v@] + rest)
                        =~= crate::value::value_seq_view(out@) + rest by {}
                }
            }
            Err(e) => {
                return Err(e);
            }
        }
        idx = idx + 1;
    }
    proof {
        assert(shapes_v.skip(idx as int) =~= Seq::empty());
        assert(crate::value::value_seq_view(out@) + Seq::empty() =~= crate::value::value_seq_view(
            out@,
        ));
    }
    Ok(out)
}

/// Decodes a mapping node's entries pairwise: each key against the key
/// shape, each value against the value shape, peeking every key before
/// consuming its value.
fn deserialize_pairs(entries: &Vec<(Node, Node)>, key_shape: &Shape, val_shape: &Shape) -> (r:
    Result<Vec<(Value, Value)>, Error>)
    ensures
        spec_decode_pairs(node_pair_seq_view(entries@), key_shape@, val_shape@) matches Ok(ps)
            ==> (r matches Ok(out) && crate::value::pair_seq_view(out@) == ps),
        spec_decode_pairs(node_pair_seq_view(entries@), key_shape@, val_shape@) matches Err(k)
            ==> (r matches Err(e) && e.kind == k),
    decreases entries, key_shape, 0int,
{
    let ghost entries_v = node_pair_seq_view(entries@);
    let mut out: Vec<(Value, Value)> = Vec::new();
    let mut cursor = MappingCursor::new(entries);
    proof {
        assert(entries_v.skip(0) =~= entries_v);
        assert(crate::value::pair_seq_view(out@) =~= Seq::<(ValueV, ValueV)>::empty());
        assert forall|rest: Seq<(ValueV, ValueV)>|
            true implies Seq::<(ValueV, ValueV)>::empty() + rest =~= rest by {}
    }
    loop
        invariant
            cursor.source() == entries@,
            entries_v == node_pair_seq_view(entries@),
            cursor.position() <= entries@.len(),
            out@.len() == cursor.position(),
            !cursor.key_pending(),
            ({
                let done = crate::value::pair_seq_view(out@);
                match spec_decode_pairs(
                    entries_v.skip(cursor.position() as int),
                    key_shape@,
                    val_shape@,
                ) {
                    Result::Ok(rest) => spec_decode_pairs(entries_v, key_shape@, val_shape@)
                        == Result::<Seq<(ValueV, ValueV)>, ErrorKind>::Ok(done + rest),
                    Result::Err(k) => spec_decode_pairs(entries_v, key_shape@, val_shape@)
                        == Result::<Seq<(ValueV, ValueV)>, ErrorKind>::Err(k),
                }
            }),
        ensures
            spec_decode_pairs(entries_v, key_shape@, val_shape@) == Result::<
                Seq<(ValueV, ValueV)>,
                ErrorKind,
            >::Ok(crate::value::pair_seq_view(out@)),
        decreases entries@.len() - cursor.position(),
    {
        let ghost pos = cursor.position() as int;
        match cursor.peek_key() {
            None => {
                proof {
                    assert(entries_v.skip(pos) =~= Seq::empty());
                    assert(crate::value::pair_seq_view(out@) + Seq::empty()
                        =~= crate::value::pair_seq_view(out@));
                }
                break;
            }
            Some(key_node) => {
                proof {
                    assert(decreases_to!(*entries => entries@));
                    assert(decreases_to!(entries@ => entries@[pos]));
                    assert(decreases_to!(entries@[pos] => entries@[pos].0));
                    assert(decreases_to!(entries@[pos] => entries@[pos].1));
                    assert(entries_v.skip(pos)[0] == entries_v[pos]);
                }
                let key = match deserialize(key_node, key_shape) {
                    Ok(k) => k,
                    Err(e) => {
                        return Err(e);
                    }
                };
                let value_node = match cursor.next_value() {
                    Ok(v) => v,
                    Err(e) => {
                        proof {
                            assert(false);
                        }
                        return Err(e);
                    }
                };
                let value = match deserialize(value_node, val_shape) {
                    Ok(v) => v,
                    Err(e) => {
                        return Err(e);
                    }
                };
                let ghost old_out = out@;
                out.push((key, value));
                proof {
                    assert(entries_v.skip(pos).drop_first() =~= entries_v.skip(pos + 1));
                    assert(crate::value::pair_seq_view(out@) =~= crate::value::pair_seq_view(
                        old_out,
                    ).push((key@, value@)));
                    assert forall|rest: Seq<(ValueV, ValueV)>|
                        true implies crate::value::pair_seq_view(old_out) + (seq![(key@, value@)]
                        + rest) =~= crate::value::pair_seq_view(out@) + rest by {}
                }
            }
        }
    }
    Ok(out)
}

/// Decodes a mapping node as a record: each entry's key names a
/// declared field, each value decodes against that field's shape, and
/// the decoded record lists its fields in declaration order.
fn deserialize_record(entries: &Vec<(Node, Node)>, fields: &Vec<(String, Shape)>) -> (r: Result<
    Vec<(String, Value)>,
    Error,
>)
    ensures
        spec_decode_record(node_pair_seq_view(entries@), shape_field_seq_view(fields@)) matches Ok(
            d,
        ) ==> (r matches Ok(out) && crate::value::field_seq_view(out@) == d),
        spec_decode_record(node_pair_seq_view(entries@), shape_field_seq_view(fields@)) matches Err(
            k,
        ) ==> (r matches Err(e) && e.kind == k),
    decreases entries, fields, 0int,
{
    let ghost entries_v = node_pair_seq_view(entries@);
    let ghost fields_v = shape_field_seq_view(fields@);
    let ghost init_slots = Seq::new(fields_v.len(), |i: int| Option::<ValueV>::None);
    let mut slots: Vec<Option<Value>> = Vec::new();
    let mut k: usize = 0;
    while k < fields.len()
        invariant
            k <= fields@.len(),
            slots@.len() == k,
            forall|i: int| 0 <= i < k ==> slots@[i] is None,
        decreases fields@.len() - k,
    {
        slots.push(None);
        k = k + 1;
    }
    proof {
        assert(slot_seq_view(slots@) =~= Seq::new(fields_v.len(), |i: int| Option::<ValueV>::None));
    }
    let mut cursor = MappingCursor::new(entries);
    proof {
        assert(entries_v.skip(0) =~= entries_v);
    }
    loop
        invariant
            cursor.source() == entries@,
            entries_v == node_pair_seq_view(entries@),
            fields_v == shape_field_seq_view(fields@),
            cursor.position() <= entries@.len(),
            !cursor.key_pending(),
            slots@.len() == fields@.len(),
            init_slots == Seq::new(fields_v.len(), |i: int| Option::<ValueV>::None),
            spec_decode_record_step(entries_v, fields_v, init_slots)
                == spec_decode_record_step(
                entries_v.skip(cursor.position() as int),
                fields_v,
                slot_seq_view(slots@),
            ),
        ensures
            slots@.len() == fields@.len(),
            spec_decode_record_step(entries_v, fields_v, init_slots) == Result::<
                Seq<Option<ValueV>>,
                ErrorKind,
            >::Ok(slot_seq_view(slots@)),
        decreases entries@.len() - cursor.position(),
    {
        let ghost pos = cursor.position() as int;
        match cursor.peek_key() {
            None => {
                proof {
                    assert(entries_v.skip(pos) =~= Seq::empty());
                }
                break;
            }
            Some(key_node) => {
                proof {
                    assert(entries_v.skip(pos)[0] == entries_v[pos]);
                }
                let name = match key_node {
                    Node::Str(s) => s,
                    Node::Sym(s) => s,
                    _ => {
                        return Err(type_mismatch("a field name", key_node));
                    }
                };
                let j = match find_field(fields, name) {
                    Some(j) => j,
                    None => {
                        proof {
                            lemma_spec_find_named(fields_v, name@);
                        }
                        return Err(Error::custom(String::from_str("unknown field")));
                    }
                };
                proof {
                    lemma_spec_find_named(fields_v, name@);
                }
                if slots[j].is_some() {
                    return Err(Error::custom(String::from_str("duplicate field")));
                }
                let value_node = match cursor.next_value() {
                    Ok(v) => v,
                    Err(e) => {
                        proof {
                            assert(false);
                        }
                        return Err(e);
                    }
                };
                proof {
                    assert(decreases_to!(*entries => entries@));
                    assert(decreases_to!(entries@ => entries@[pos]));
                    assert(decreases_to!(entries@[pos] => entries@[pos].1));
                }
                let value = match deserialize(value_node, &fields[j].1) {
                    Ok(v) => v,
                    Err(e) => {
                        return Err(e);
                    }
                };
                let ghost old_slots = slots@;
                slots[j] = Some(value);
                proof {
                    assert(slot_seq_view(slots@) =~= slot_seq_view(old_slots).update(
                        j as int,
                        Option::Some(value@),
                    ));
                    assert(entries_v.skip(pos).drop_first() =~= entries_v.skip(pos + 1));
                }
            }
        }
    }
    let ghost final_slots = slot_seq_view(slots@);
    let mut k: usize = 0;
    while k < slots.len()
        invariant
            k <= slots@.len(),
            slots@.len() == fields@.len(),
            entries_v == node_pair_seq_view(entries@),
            fields_v == shape_field_seq_view(fields@),
            init_slots == Seq::new(fields_v.len(), |i: int| Option::<ValueV>::None),
            spec_decode_record_step(entries_v, fields_v, init_slots) == Result::<
                Seq<Option<ValueV>>,
                ErrorKind,
            >::Ok(final_slots),
            final_slots == slot_seq_view(slots@),
            forall|i: int| 0 <= i < k ==> (#[trigger] final_slots[i]) is Some,
        decreases slots@.len() - k,
    {
        if slots[k].is_none() {
            proof {
                assert(final_slots[k as int] is None);
            }
            return Err(Error::custom(String::from_str("missing field")));
        }
        k = k + 1;
    }
    let ghost target = Seq::new(
        fields_v.len(),
        |j: int|
            if 0 <= j < fields_v.len() {
                (fields_v[j].0, final_slots[j]->0)
            } else {
                (Seq::empty(), ValueV::Unit)
            },
    );
    let mut rev: Vec<(String, Value)> = Vec::new();
    let mut j: usize = fields.len();
    while j > 0
        invariant
            j <= fields@.len(),
            slots@.len() == j,
            fields_v == shape_field_seq_view(fields@),
            final_slots.len() == fields@.len(),
            target.len() == fields_v.len(),
            forall|k: int|
                0 <= k < fields_v.len() ==> #[trigger] target[k] == (
                    fields_v[k].0,
                    final_slots[k]->0,
                ),
            forall|i: int| 0 <= i < fields_v.len() ==> (#[trigger] final_slots[i]) is Some,
            forall|i: int| 0 <= i < j ==> slot_seq_view(slots@)[i] == final_slots[i],
            rev@.len() == fields@.len() - j,
            forall|i: int|
                0 <= i < rev@.len() ==> rev@[i].0@ == target[fields_v.len() - 1 - i].0 && rev@[i].1@
                    == target[fields_v.len() - 1 - i].1,
        decreases j,
    {
        j = j - 1;
        let ghost slots_pre = slots@;
        let ghost rev_pre = rev@;
        let name = fields[j].0.clone();
        proof {
            assert(slot_seq_view(slots_pre)[j as int] == final_slots[j as int]);
            assert(final_slots[j as int] is Some);
        }
        match slots.pop() {
            Some(slot) => {
                proof {
                    assert(slot == slots_pre[j as int]);
                }
                match slot {
                    Some(v) => {
                        proof {
                            assert(crate::value::value_view(v) == final_slots[j as int]->0);
                            assert(target[j as int].0 == fields_v[j as int].0);
                            assert(name@ == fields_v[j as int].0);
                        }
                        rev.push((name, v));
                        proof {
                            assert forall|i: int| 0 <= i < j implies slot_seq_view(slots@)[i]
                                == slot_seq_view(slots_pre)[i] by {}
                            assert(rev@ =~= rev_pre.push((name, v)));
                        }
                    }
                    None => {
                        proof {
                            assert(false);
                        }
                        return Err(Error::custom(String::from_str("missing field")));
                    }
                }
            }
            None => {
                proof {
                    assert(false);
                }
                return Err(Error::custom(String::from_str("missing field")));
            }
        }
    }
    let mut out: Vec<(String, Value)> = Vec::new();
    while rev.len() > 0
        invariant
            out@.len() + rev@.len() == fields@.len(),
            forall|i: int|
                0 <= i < rev@.len() ==> rev@[i].0@ == target[fields_v.len() - 1 - i].0 && rev@[i].1@
                    == target[fields_v.len() - 1 - i].1,
            forall|i: int|
                0 <= i < out@.len() ==> out@[i].0@ == target[i].0 && out@[i].1@ == target[i].1,
            target.len() == fields_v.len(),
            fields_v.len() == fields@.len(),
        decreases rev@.len(),
    {
        match rev.pop() {
            Some(pair) => {
                out.push(pair);
            }
            None => {}
        }
    }
    proof {
        assert(crate::value::field_seq_view(out@) =~= target);
    }
    Ok(out)
}

} // verus!
