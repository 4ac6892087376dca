//! The encoder: walks a typed value top-down and produces value-tree
//! nodes.
//!
//! Every scalar maps one-to-one onto a node; options and newtype
//! structs unwrap transparently; tuples, sequences and maps build their
//! container node element by element; records build a mapping keyed by
//! interned field names; enum variants follow the shared wire
//! convention ([`nest`]).  Encoding is infallible except for integer
//! range checks: an unsigned value wider than the host's integer
//! representation is an `IntegerOverflow` error.

use vstd::prelude::*;
use vstd::string::StringExecFns;

use crate::error::{Error, ErrorKind};
use crate::node::{Node, NodeV};
use crate::value::{Value, ValueV, VariantPayload, VariantPayloadV};

verus! {

broadcast use vstd::std_specs::vec::group_vec_axioms;

/// Whether a typed value can be represented in the value tree: every
/// unsigned integer in it must fit the host's signed representation.
pub open spec fn spec_encodable(v: ValueV) -> bool
    decreases v, 1int,
{
    match v {
        ValueV::U64(u) => u <= i64::MAX,
        ValueV::Opt(opt) => match opt {
            Option::None => true,
            Option::Some(inner) => spec_encodable(*inner),
        },
        ValueV::Newtype(inner) => spec_encodable(*inner),
        ValueV::Tuple(elems) => spec_seq_encodable(elems),
        ValueV::List(elems) => spec_seq_encodable(elems),
        ValueV::Dict(entries) => spec_pairs_encodable(entries),
        ValueV::Record(fields) => spec_fields_encodable(fields),
        ValueV::Variant(_name, payload) => match payload {
            VariantPayloadV::Unit => true,
            VariantPayloadV::Newtype(inner) => spec_encodable(*inner),
            VariantPayloadV::Tuple(elems) => spec_seq_encodable(elems),
            VariantPayloadV::Struct(fields) => spec_fields_encodable(fields),
        },
        _ => true,
    }
}

/// Whether every element of a sequence is encodable.
pub open spec fn spec_seq_encodable(elems: Seq<ValueV>) -> bool
    decreases elems, 0int,
{
    forall|i: int| 0 <= i < elems.len() ==> spec_encodable(#[trigger] elems[i])
}

/// Whether every key and value of a pair sequence is encodable.
pub open spec fn spec_pairs_encodable(entries: Seq<(ValueV, ValueV)>) -> bool
    decreases entries, 0int,
{
    forall|i: int|
        0 <= i < entries.len() ==> spec_encodable(#[trigger] entries[i].0) && spec_encodable(
            entries[i].1,
        )
}

/// Whether every field value of a named-field sequence is encodable.
pub open spec fn spec_fields_encodable(fields: Seq<(Seq<char>, ValueV)>) -> bool
    decreases fields, 0int,
{
    forall|i: int| 0 <= i < fields.len() ==> spec_encodable((#[trigger] fields[i]).1)
}

/// The enum wire convention's envelope: a single-entry mapping from the
/// variant's name to its payload.
pub open spec fn spec_nest(name: Seq<char>, payload: NodeV) -> NodeV {
    NodeV::Hash(seq![(NodeV::Str(name), payload)])
}

/// What encoding produces, for every encodable typed value.
pub open spec fn spec_encode(v: ValueV) -> NodeV
    decreases v, 1int,
{
    match v {
        ValueV::Unit => NodeV::Null,
        ValueV::UnitStruct => NodeV::Null,
        ValueV::Bool(b) => NodeV::Bool(b),
        ValueV::I64(i) => NodeV::Int(i),
        ValueV::U64(u) => NodeV::Int(u as i64),
        ValueV::Float(bits) => NodeV::Float(bits),
        ValueV::Char(c) => NodeV::Str(seq![c]),
        ValueV::Str(s) => NodeV::Str(s),
        ValueV::Bytes(b) => NodeV::Bytes(b),
        ValueV::Opt(opt) => match opt {
            Option::None => NodeV::Null,
            Option::Some(inner) => spec_encode(*inner),
        },
        ValueV::Newtype(inner) => spec_encode(*inner),
        ValueV::Tuple(elems) => NodeV::Arr(spec_encode_seq(elems)),
        ValueV::List(elems) => NodeV::Arr(spec_encode_seq(elems)),
        ValueV::Dict(entries) => NodeV::Hash(spec_encode_pairs(entries)),
        ValueV::Record(fields) => NodeV::Hash(spec_encode_fields(fields)),
        ValueV::Variant(name, payload) => match payload {
            VariantPayloadV::Unit => NodeV::Str(name),
            VariantPayloadV::Newtype(inner) => spec_nest(name, spec_encode(*inner)),
            VariantPayloadV::Tuple(elems) => spec_nest(name, NodeV::Arr(spec_encode_seq(elems))),
            VariantPayloadV::Struct(fields) => spec_nest(
                name,
                NodeV::Hash(spec_encode_fields(fields)),
            ),
        },
    }
}

/// The element-wise encoding of a sequence of typed values.
pub open spec fn spec_encode_seq(elems: Seq<ValueV>) -> Seq<NodeV>
    decreases elems, 0int,
{
    Seq::new(
        elems.len(),
        |i: int|
            if 0 <= i < elems.len() {
                spec_encode(elems[i])
            } else {
                NodeV::Null
            },
    )
}

/// The entry-wise encoding of a sequence of key/value pairs, in
/// encounter order and without key deduplication.
pub open spec fn spec_encode_pairs(entries: Seq<(ValueV, ValueV)>) -> Seq<(NodeV, NodeV)>
    decreases entries, 0int,
{
    Seq::new(
        entries.len(),
        |i: int|
            if 0 <= i < entries.len() {
                (spec_encode(entries[i].0), spec_encode(entries[i].1))
            } else {
                (NodeV::Null, NodeV::Null)
            },
    )
}

/// The entry-wise encoding of named fields: each field name becomes an
/// interned-string key, in declaration order.
pub open spec fn spec_encode_fields(fields: Seq<(Seq<char>, ValueV)>) -> Seq<(NodeV, NodeV)>
    decreases fields, 0int,
{
    Seq::new(
        fields.len(),
        |i: int|
            if 0 <= i < fields.len() {
                (NodeV::Sym(fields[i].0), spec_encode(fields[i].1))
            } else {
                (NodeV::Null, NodeV::Null)
            },
    )
}

/// Relies on `String::push`: appends the given character to the end of
/// the string.
#[verifier::external_body]
fn push_char(s: &mut String, c: char)
    ensures
        final(s)@ == old(s)@.push(c),
{
    s.push(c);
}

/// Builds the enum wire convention's envelope for a non-unit variant: a
/// single-entry mapping from the variant's name to its payload.
pub fn nest(variant: &str, payload: Node) -> (node: Node)
    ensures
        node@ == spec_nest(variant@, payload@),
{
    let key = Node::Str(variant.to_owned());
    let ghost key_view = key@;
    let ghost payload_view = payload@;
    let mut entries: Vec<(Node, Node)> = Vec::new();
    entries.push((key, payload));
    let node = Node::Hash(entries);
    proof {
        assert(key_view == NodeV::Str(variant@));
        assert(node@ matches NodeV::Hash(s) && s =~= seq![(key_view, payload_view)]);
    }
    node
}

/// Encodes a typed value as a value-tree node.
///
/// Succeeds for exactly the encodable values; the one failure is an
/// unsigned integer too wide for the host's integer representation.
pub fn serialize(value: &Value) -> (r: Result<Node, Error>)
    ensures
        spec_encodable(value@) ==> (r matches Ok(node) && node@ == spec_encode(value@)),
        !spec_encodable(value@) ==> (r matches Err(e) && e.kind == ErrorKind::IntegerOverflow),
    decreases value,
{
    match value {
        Value::Unit => Ok(Node::Null),
        Value::UnitStruct => Ok(Node::Null),
        Value::Bool(b) => Ok(Node::Bool(*b)),
        Value::I64(i) => Ok(Node::Int(*i)),
        Value::U64(u) => {
            if *u <= i64::MAX as u64 {
                Ok(Node::Int(*u as i64))
            } else {
                Err(Error::new(
                    ErrorKind::IntegerOverflow,
                    String::from_str("integer out of range for the value tree"),
                ))
            }
        }
        Value::Float(bits) => Ok(Node::Float(*bits)),
        Value::Char(c) => {
            let mut s = String::new();
            push_char(&mut s, *c);
            proof {
                assert(s@ =~= seq![*c]);
            }
            Ok(Node::Str(s))
        }
        Value::Str(s) => Ok(Node::Str(s.clone())),
        Value::Bytes(b) => Ok(Node::Bytes(b.clone())),
        Value::Opt(opt) => match opt {
            Option::None => Ok(Node::Null),
            Option::Some(inner) => serialize(&**inner),
        },
        Value::Newtype(inner) => serialize(&**inner),
        Value::Tuple(elems) => match serialize_elements(elems) {
            Ok(nodes) => Ok(Node::Arr(nodes)),
            Err(e) => Err(e),
        },
        Value::List(elems) => match serialize_elements(elems) {
            Ok(nodes) => Ok(Node::Arr(nodes)),
            Err(e) => Err(e),
        },
        Value::Dict(entries) => match serialize_entries(entries) {
            Ok(nodes) => Ok(Node::Hash(nodes)),
            Err(e) => Err(e),
        },
        Value::Record(fields) => match serialize_fields(fields) {
            Ok(nodes) => Ok(Node::Hash(nodes)),
            Err(e) => Err(e),
        },
        Value::Variant(name, payload) => match payload {
            VariantPayload::Unit => {
                let out = Node::Str(name.clone());
                proof {
                    assert(*value == Value::Variant(*name, VariantPayload::Unit));
                    assert(value@ == ValueV::Variant(name@, VariantPayloadV::Unit));
                }
                Ok(out)
            }
            VariantPayload::Newtype(inner) => match serialize(&**inner) {
                Ok(node) => {
                    let out = nest(name.as_str(), node);
                    proof {
                        assert(*value == Value::Variant(*name, VariantPayload::Newtype(*inner)));
                        assert(crate::value::variant_payload_view(*payload)
                            == VariantPayloadV::Newtype(Box::new((**inner)@)));
                        assert(value@ == ValueV::Variant(
                            name@,
                            VariantPayloadV::Newtype(Box::new((**inner)@)),
                        ));
                    }
                    Ok(out)
                }
                Err(e) => Err(e),
            },
            VariantPayload::Tuple(elems) => match serialize_elements(elems) {
                Ok(nodes) => {
                    let out = nest(name.as_str(), Node::Arr(nodes));
                    proof {
                        assert(*value == Value::Variant(*name, VariantPayload::Tuple(*elems)));
                        assert(crate::value::variant_payload_view(*payload)
                            == VariantPayloadV::Tuple(crate::value::value_seq_view(elems@)));
                        assert(value@ == ValueV::Variant(
                            name@,
                            VariantPayloadV::Tuple(crate::value::value_seq_view(elems@)),
                        ));
                    }
                    Ok(out)
                }
                Err(e) => Err(e),
            },
            VariantPayload::Struct(fields) => match serialize_fields(fields) {
                Ok(nodes) => {
                    let out = nest(name.as_str(), Node::Hash(nodes));
                    proof {
                        assert(*value == Value::Variant(*name, VariantPayload::Struct(*fields)));
                        assert(crate::value::variant_payload_view(*payload)
                            == VariantPayloadV::Struct(crate::value::field_seq_view(fields@)));
                        assert(value@ == ValueV::Variant(
                            name@,
                            VariantPayloadV::Struct(crate::value::field_seq_view(fields@)),
                        ));
                    }
                    Ok(out)
                }
                Err(e) => Err(e),
            },
        },
    }
}

/// Encodes each element of a sequence, in order.
fn serialize_elements(elems: &Vec<Value>) -> (r: Result<Vec<Node>, Error>)
    ensures
        spec_seq_encodable(crate::value::value_seq_view(elems@)) ==> (r matches Ok(nodes)
            && crate::node::node_view(Node::Arr(nodes))->Arr_0 == spec_encode_seq(
            crate::value::value_seq_view(elems@),
        )),
        !spec_seq_encodable(crate::value::value_seq_view(elems@)) ==> (r matches Err(e)
            && e.kind == ErrorKind::IntegerOverflow),
    decreases elems,
{
    let ghost views = crate::value::value_seq_view(elems@);
    let mut nodes: Vec<Node> = Vec::new();
    let mut idx: usize = 0;
    while idx < elems.len()
        invariant
            idx <= elems@.len(),
            nodes@.len() == idx,
            views == crate::value::value_seq_view(elems@),
            forall|j: int|
                0 <= j < idx ==> spec_encodable(#[trigger] views[j]) && nodes@[j]@ == spec_encode(
                    views[j],
                ),
        decreases elems@.len() - idx,
    {
        proof {
            assert(views[idx as int] == elems@[idx as int]@);
        }
        match serialize(&elems[idx]) {
            Ok(node) => {
                nodes.push(node);
            }
            Err(e) => {
                proof {
                    assert(!spec_encodable(views[idx as int]));
                }
                return Err(e);
            }
        }
        idx = idx + 1;
    }
    proof {
        assert(crate::node::node_view(Node::Arr(nodes))->Arr_0 =~= spec_encode_seq(views));
    }
    Ok(nodes)
}

/// Encodes each key/value pair of a map, in encounter order.
fn serialize_entries(entries: &Vec<(Value, Value)>) -> (r: Result<Vec<(Node, Node)>, Error>)
    ensures
        spec_pairs_encodable(crate::value::pair_seq_view(entries@)) ==> (r matches Ok(nodes)
            && crate::node::node_view(Node::Hash(nodes))->Hash_0 == spec_encode_pairs(
            crate::value::pair_seq_view(entries@),
        )),
        !spec_pairs_encodable(crate::value::pair_seq_view(entries@)) ==> (r matches Err(e)
            && e.kind == ErrorKind::IntegerOverflow),
    decreases entries,
{
    let ghost views = crate::value::pair_seq_view(entries@);
    let mut nodes: Vec<(Node, Node)> = Vec::new();
    let mut idx: usize = 0;
    while idx < entries.len()
        invariant
            idx <= entries@.len(),
            nodes@.len() == idx,
            views == crate::value::pair_seq_view(entries@),
            forall|j: int|
                0 <= j < idx ==> spec_encodable((#[trigger] views[j]).0) && spec_encodable(
                    views[j].1,
                ) && nodes@[j].0@ == spec_encode(views[j].0) && nodes@[j].1@ == spec_encode(
                    views[j].1,
                ),
        decreases entries@.len() - idx,
    {
        proof {
            assert(views[idx as int] == (entries@[idx as int].0@, entries@[idx as int].1@));
        }
        let key = match serialize(&entries[idx].0) {
            Ok(node) => node,
            Err(e) => {
                return Err(e);
            }
        };
        let val = match serialize(&entries[idx].1) {
            Ok(node) => node,
            Err(e) => {
                return Err(e);
            }
        };
        nodes.push((key, val));
        idx = idx + 1;
    }
    proof {
        assert(crate::node::node_view(Node::Hash(nodes))->Hash_0 =~= spec_encode_pairs(views));
    }
    Ok(nodes)
}

/// Encodes each named field: the name as an interned-string key, the
/// field value as the entry's value, in declaration order.
fn serialize_fields(fields: &Vec<(String, Value)>) -> (r: Result<Vec<(Node, Node)>, Error>)
    ensures
        spec_fields_encodable(crate::value::field_seq_view(fields@)) ==> (r matches Ok(nodes)
            && crate::node::node_view(Node::Hash(nodes))->Hash_0 == spec_encode_fields(
            crate::value::field_seq_view(fields@),
        )),
        !spec_fields_encodable(crate::value::field_seq_view(fields@)) ==> (r matches Err(e)
            && e.kind == ErrorKind::IntegerOverflow),
    decreases fields,
{
    let ghost views = crate::value::field_seq_view(fields@);
    let mut nodes: Vec<(Node, Node)> = Vec::new();
    let mut idx: usize = 0;
    while idx < fields.len()
        invariant
            idx <= fields@.len(),
            nodes@.len() == idx,
            views == crate::value::field_seq_view(fields@),
            forall|j: int|
                0 <= j < idx ==> spec_encodable((#[trigger] views[j]).1) && nodes@[j].0@
                    == NodeV::Sym(views[j].0) && nodes@[j].1@ == spec_encode(views[j].1),
        decreases fields@.len() - idx,
    {
        proof {
            assert(views[idx as int] == (fields@[idx as int].0@, fields@[idx as int].1@));
        }
        let key = Node::Sym(fields[idx].0.clone());
        let val = match serialize(&fields[idx].1) {
            Ok(node) => node,
            Err(e) => {
                return Err(e);
            }
        };
        nodes.push((key, val));
        idx = idx + 1;
    }
    proof {
        assert(crate::node::node_view(Node::Hash(nodes))->Hash_0 =~= spec_encode_fields(views));
    }
    Ok(nodes)
}

} // verus!
