//! The laws of the codec, stated over the same spec functions that the
//! encoder's and decoder's contracts use, and proved for every input.

use vstd::prelude::*;

use crate::de::{
    spec_decode, spec_decode_enum_entry, spec_decode_null, spec_decode_pairs, spec_decode_record,
    spec_decode_record_step, spec_decode_seq, spec_decode_variant, spec_decode_zip,
    spec_find_named, lemma_spec_find_named,
};
use crate::error::ErrorKind;
use crate::node::NodeV;
use crate::ser::{
    spec_encodable, spec_encode, spec_encode_fields, spec_encode_pairs, spec_encode_seq,
    spec_fields_encodable, spec_nest, spec_pairs_encodable, spec_seq_encodable,
};
use crate::shape::{ShapeV, VariantShapeV};
use crate::value::{ValueV, VariantPayloadV};

verus! {

/// Whether a typed value conforms to a target shape: decoding what the
/// value encodes to, against this shape, reproduces the value.
///
/// The one exclusion is an option around a value that encodes to null
/// (such as `Some` of unit): its encoding is indistinguishable from
/// `None` on the wire.
pub open spec fn fits(v: ValueV, s: ShapeV) -> bool
    decreases v, s, 0int,
{
    match s {
        ShapeV::Any => match v {
            ValueV::Unit => true,
            ValueV::Bool(_) => true,
            ValueV::I64(_) => true,
            ValueV::Float(_) => true,
            ValueV::Str(_) => true,
            ValueV::List(elems) => fits_seq(elems, ShapeV::Any),
            ValueV::Dict(entries) => fits_pairs(entries, ShapeV::Any, ShapeV::Any),
            _ => false,
        },
        ShapeV::Unit => v is Unit,
        ShapeV::UnitStruct => v is UnitStruct,
        ShapeV::Bool => v is Bool,
        ShapeV::I64 => v is I64,
        ShapeV::U64 => v is U64,
        ShapeV::Float => v is Float,
        ShapeV::Char => v is Char,
        ShapeV::Str => v is Str,
        ShapeV::Bytes => v is Bytes,
        ShapeV::BorrowedStr => false,
        ShapeV::BorrowedBytes => false,
        ShapeV::Option(inner) => match v {
            ValueV::Opt(opt) => match opt {
                Option::None => true,
                Option::Some(x) => fits(*x, *inner) && spec_encode(*x) != NodeV::Null,
            },
            _ => false,
        },
        ShapeV::NewtypeStruct(inner) => v matches ValueV::Newtype(x) && fits(*x, *inner),
        ShapeV::Tuple(shapes) => v matches ValueV::Tuple(elems) && elems.len() == shapes.len()
            && fits_zip(elems, shapes),
        ShapeV::List(inner) => v matches ValueV::List(elems) && fits_seq(elems, *inner),
        ShapeV::Dict(key_shape, val_shape) => v matches ValueV::Dict(entries) && fits_pairs(
            entries,
            *key_shape,
            *val_shape,
        ),
        ShapeV::Record(fields) => v matches ValueV::Record(values) && fits_fields(values, fields),
        ShapeV::Enum(variants) => v matches ValueV::Variant(name, payload) && (
        match spec_find_named(variants, name) {
            Option::None => false,
            Option::Some(j) => fits_variant(payload, variants[j].1),
        }),
        ShapeV::Ignored => v is Unit,
    }
}

/// Whether an enum payload conforms to its variant's declared kind.
pub open spec fn fits_variant(payload: VariantPayloadV, kind: VariantShapeV) -> bool
    decreases payload, kind, 0int,
{
    match kind {
        VariantShapeV::Unit => payload is Unit,
        VariantShapeV::Newtype(inner) => payload matches VariantPayloadV::Newtype(x) && fits(
            *x,
            *inner,
        ),
        VariantShapeV::Tuple(shapes) => payload matches VariantPayloadV::Tuple(elems)
            && elems.len() == shapes.len() && fits_zip(elems, shapes),
        VariantShapeV::Struct(fields) => payload matches VariantPayloadV::Struct(values)
            && fits_fields(values, fields),
    }
}

/// Whether every element of a sequence conforms to one shape.
pub open spec fn fits_seq(elems: Seq<ValueV>, s: ShapeV) -> bool
    decreases elems, s, 0int,
{
    forall|i: int| 0 <= i < elems.len() ==> fits(#[trigger] elems[i], s)
}

/// Whether a sequence conforms pairwise to a list of shapes.
pub open spec fn fits_zip(elems: Seq<ValueV>, shapes: Seq<ShapeV>) -> bool
    decreases elems, shapes, 0int,
{
    forall|i: int|
        0 <= i < elems.len() && i < shapes.len() ==> fits(#[trigger] elems[i], shapes[i])
}

/// Whether every key and value of a pair sequence conform to the key
/// and value shapes.
pub open spec fn fits_pairs(
    entries: Seq<(ValueV, ValueV)>,
    key_shape: ShapeV,
    val_shape: ShapeV,
) -> bool
    decreases entries, key_shape, 0int,
{
    forall|i: int|
        0 <= i < entries.len() ==> fits((#[trigger] entries[i]).0, key_shape) && fits(
            entries[i].1,
            val_shape,
        )
}

/// Whether a record's fields conform to declared field shapes: the
/// same names in the same order, distinct names, conforming values.
pub open spec fn fits_fields(
    values: Seq<(Seq<char>, ValueV)>,
    fields: Seq<(Seq<char>, ShapeV)>,
) -> bool
    decreases values, fields, 0int,
{
    &&& values.len() == fields.len()
    &&& forall|i: int|
        0 <= i < values.len() ==> (#[trigger] values[i]).0 == fields[i].0 && fits(
            values[i].1,
            fields[i].1,
        )
    &&& forall|i: int, j: int|
        #![trigger fields[i], fields[j]]
        0 <= i < j < fields.len() ==> fields[i].0 != fields[j].0
}

/// The enum wire convention: a unit variant encodes as a bare string
/// holding the variant's name; every other variant kind encodes as a
/// single-entry mapping keyed by that name.
pub proof fn lemma_enum_wire_convention(name: Seq<char>, payload: VariantPayloadV)
    ensures
        payload is Unit ==> spec_encode(ValueV::Variant(name, payload)) == NodeV::Str(name),
        !(payload is Unit) ==> (spec_encode(ValueV::Variant(name, payload)) matches NodeV::Hash(
            entries,
        ) && entries.len() == 1 && entries[0].0 == NodeV::Str(name)),
{
}

/// The enum arity guard: a mapping with any number of entries other
/// than one never decodes as an enum; a bare string decodes as a unit
/// variant of that name; a bare string naming a tuple or struct
/// variant fails; a bare string naming a newtype variant carries an
/// implicit null payload, which decodes only if the wrapped shape
/// accepts null.
pub proof fn lemma_enum_arity_guard(
    entries: Seq<(NodeV, NodeV)>,
    name: Seq<char>,
    variants: Seq<(Seq<char>, VariantShapeV)>,
)
    ensures
        entries.len() != 1 ==> spec_decode(NodeV::Hash(entries), ShapeV::Enum(variants))
            == Result::<ValueV, ErrorKind>::Err(ErrorKind::InvalidEnumArity),
        (spec_find_named(variants, name) matches Option::Some(j) && variants[j].1 is Unit)
            ==> spec_decode(NodeV::Str(name), ShapeV::Enum(variants)) == Result::<
            ValueV,
            ErrorKind,
        >::Ok(ValueV::Variant(name, VariantPayloadV::Unit)),
        (spec_find_named(variants, name) matches Option::Some(j) && (variants[j].1 is Tuple
            || variants[j].1 is Struct)) ==> spec_decode(NodeV::Str(name), ShapeV::Enum(variants))
            == Result::<ValueV, ErrorKind>::Err(ErrorKind::TypeMismatch),
        ({
            let found = spec_find_named(variants, name);
            (found is Some && variants[found->0].1 is Newtype) ==> spec_decode(
                NodeV::Str(name),
                ShapeV::Enum(variants),
            ) == (match spec_decode_null(*variants[found->0].1->Newtype_0) {
                Result::Ok(v) => Result::<ValueV, ErrorKind>::Ok(
                    ValueV::Variant(name, VariantPayloadV::Newtype(Box::new(v))),
                ),
                Result::Err(k) => Result::<ValueV, ErrorKind>::Err(k),
            })
        }),
{
}

/// The borrow guard: a borrowed-string or borrowed-bytes request fails
/// with `UnsupportedBorrow` whatever the node holds.
pub proof fn lemma_borrow_guard(n: NodeV)
    ensures
        spec_decode(n, ShapeV::BorrowedStr) == Result::<ValueV, ErrorKind>::Err(
            ErrorKind::UnsupportedBorrow,
        ),
        spec_decode(n, ShapeV::BorrowedBytes) == Result::<ValueV, ErrorKind>::Err(
            ErrorKind::UnsupportedBorrow,
        ),
{
}

/// Integer fidelity: a signed value, however extreme, survives the
/// round trip exactly; an unsigned value does so whenever it fits the
/// host's signed representation; and a float node never decodes into
/// an integer target.
pub proof fn lemma_integer_fidelity(i: i64, u: u64, bits: u64)
    ensures
        spec_decode(spec_encode(ValueV::I64(i)), ShapeV::I64) == Result::<ValueV, ErrorKind>::Ok(
            ValueV::I64(i),
        ),
        u <= i64::MAX ==> spec_decode(spec_encode(ValueV::U64(u)), ShapeV::U64) == Result::<
            ValueV,
            ErrorKind,
        >::Ok(ValueV::U64(u)),
        spec_decode(NodeV::Float(bits), ShapeV::I64) == Result::<ValueV, ErrorKind>::Err(
            ErrorKind::TypeMismatch,
        ),
        spec_decode(NodeV::Float(bits), ShapeV::U64) == Result::<ValueV, ErrorKind>::Err(
            ErrorKind::TypeMismatch,
        ),
{
}


/// The slot state after the first `k` fields of a record have been
/// decoded.
pub open spec fn slots_of(values: Seq<(Seq<char>, ValueV)>, k: int) -> Seq<Option<ValueV>> {
    Seq::new(
        values.len(),
        |j: int|
            if 0 <= j < k {
                Option::Some(values[j].1)
            } else {
                Option::None
            },
    )
}

/// Round trip of one sequence: decoding an encoded sequence element by
/// element reproduces the elements.
proof fn lemma_round_trip_seq(elems: Seq<ValueV>, s: ShapeV)
    requires
        spec_seq_encodable(elems),
        fits_seq(elems, s),
    ensures
        spec_decode_seq(spec_encode_seq(elems), s) == Result::<Seq<ValueV>, ErrorKind>::Ok(elems),
    decreases elems, s, 0int,
{
    let ns = spec_encode_seq(elems);
    if elems.len() == 0 {
        assert(ns =~= Seq::<NodeV>::empty());
        assert(elems =~= Seq::<ValueV>::empty());
    } else {
        assert(ns[0] == spec_encode(elems[0]));
        lemma_round_trip(elems[0], s);
        let rest = elems.drop_first();
        assert(forall|i: int| 0 <= i < rest.len() ==> #[trigger] rest[i] == elems[i + 1]);
        assert(ns.drop_first() =~= spec_encode_seq(rest));
        lemma_round_trip_seq(rest, s);
        assert(seq![elems[0]] + rest =~= elems);
    }
}

/// Round trip of one tuple: decoding an encoded tuple pairwise against
/// its element shapes reproduces the elements.
proof fn lemma_round_trip_zip(elems: Seq<ValueV>, shapes: Seq<ShapeV>)
    requires
        elems.len() == shapes.len(),
        spec_seq_encodable(elems),
        fits_zip(elems, shapes),
    ensures
        spec_decode_zip(spec_encode_seq(elems), shapes) == Result::<Seq<ValueV>, ErrorKind>::Ok(
            elems,
        ),
    decreases elems, shapes, 0int,
{
    let ns = spec_encode_seq(elems);
    if elems.len() == 0 {
        assert(ns =~= Seq::<NodeV>::empty());
        assert(elems =~= Seq::<ValueV>::empty());
    } else {
        assert(ns[0] == spec_encode(elems[0]));
        lemma_round_trip(elems[0], shapes[0]);
        let rest = elems.drop_first();
        assert(forall|i: int| 0 <= i < rest.len() ==> #[trigger] rest[i] == elems[i + 1]);
        assert(ns.drop_first() =~= spec_encode_seq(rest));
        lemma_round_trip_zip(rest, shapes.drop_first());
        assert(seq![elems[0]] + rest =~= elems);
    }
}

/// Round trip of one map: decoding an encoded map entry by entry
/// reproduces the pairs, in encounter order.
proof fn lemma_round_trip_pairs(entries: Seq<(ValueV, ValueV)>, key_shape: ShapeV, val_shape: ShapeV)
    requires
        spec_pairs_encodable(entries),
        fits_pairs(entries, key_shape, val_shape),
    ensures
        spec_decode_pairs(spec_encode_pairs(entries), key_shape, val_shape) == Result::<
            Seq<(ValueV, ValueV)>,
            ErrorKind,
        >::Ok(entries),
    decreases entries, key_shape, 0int,
{
    let ns = spec_encode_pairs(entries);
    if entries.len() == 0 {
        assert(ns =~= Seq::<(NodeV, NodeV)>::empty());
        assert(entries =~= Seq::<(ValueV, ValueV)>::empty());
    } else {
        assert(ns[0] == (spec_encode(entries[0].0), spec_encode(entries[0].1)));
        lemma_round_trip(entries[0].0, key_shape);
        lemma_round_trip(entries[0].1, val_shape);
        let rest = entries.drop_first();
        assert(forall|i: int| 0 <= i < rest.len() ==> #[trigger] rest[i] == entries[i + 1]);
        assert(ns.drop_first() =~= spec_encode_pairs(rest));
        lemma_round_trip_pairs(rest, key_shape, val_shape);
        assert(seq![(entries[0].0, entries[0].1)] + rest =~= entries);
    }
}

/// One pass of the record round trip: from the state where the first
/// `k` fields are decoded, walking the remaining encoded entries fills
/// every remaining slot with its field's value.
proof fn lemma_record_step(
    values: Seq<(Seq<char>, ValueV)>,
    fields: Seq<(Seq<char>, ShapeV)>,
    k: int,
)
    requires
        0 <= k <= values.len(),
        spec_fields_encodable(values),
        fits_fields(values, fields),
    ensures
        spec_decode_record_step(spec_encode_fields(values).skip(k), fields, slots_of(values, k))
            == Result::<Seq<Option<ValueV>>, ErrorKind>::Ok(slots_of(values, values.len() as int)),
    decreases values, fields, values.len() - k,
{
    let encoded = spec_encode_fields(values);
    if k == values.len() {
        assert(encoded.skip(k) =~= Seq::<(NodeV, NodeV)>::empty());
    } else {
        assert(encoded.skip(k)[0] == encoded[k]);
        assert(encoded[k] == (NodeV::Sym(values[k].0), spec_encode(values[k].1)));
        assert(values[k].0 == fields[k].0);
        lemma_spec_find_named(fields, values[k].0);
        match spec_find_named(fields, values[k].0) {
            Option::None => {
                assert(fields[k].0 == values[k].0);
                assert(false);
            }
            Option::Some(j) => {
                if j < k {
                    assert(fields[j].0 == fields[k].0);
                    assert(false);
                } else if j > k {
                    assert(fields[k].0 != values[k].0);
                    assert(false);
                }
                assert(j == k);
            }
        }
        assert(slots_of(values, k)[k] is None);
        lemma_round_trip(values[k].1, fields[k].1);
        assert(encoded.skip(k).drop_first() =~= encoded.skip(k + 1));
        assert(slots_of(values, k).update(k, Option::Some(values[k].1)) =~= slots_of(
            values,
            k + 1,
        ));
        lemma_record_step(values, fields, k + 1);
    }
}

/// Round trip of one record: decoding an encoded record against its
/// field shapes reproduces the fields, in declaration order.
proof fn lemma_round_trip_record(
    values: Seq<(Seq<char>, ValueV)>,
    fields: Seq<(Seq<char>, ShapeV)>,
)
    requires
        spec_fields_encodable(values),
        fits_fields(values, fields),
    ensures
        spec_decode_record(spec_encode_fields(values), fields) == Result::<
            Seq<(Seq<char>, ValueV)>,
            ErrorKind,
        >::Ok(values),
    decreases values, fields, values.len() + 1,
{
    let encoded = spec_encode_fields(values);
    let n = values.len() as int;
    lemma_record_step(values, fields, 0);
    assert(encoded.skip(0) =~= encoded);
    assert(slots_of(values, 0) =~= Seq::new(fields.len(), |i: int| Option::<ValueV>::None));
    let full = slots_of(values, n);
    assert(forall|j: int| 0 <= j < full.len() ==> (#[trigger] full[j]) is Some);
    assert(Seq::new(
        fields.len(),
        |j: int|
            if 0 <= j < fields.len() {
                (fields[j].0, full[j]->0)
            } else {
                (Seq::<char>::empty(), ValueV::Unit)
            },
    ) =~= values);
}

/// The round-trip law: for every typed value that conforms to a target
/// shape and is representable in the value tree, decoding its encoding
/// against that shape reproduces the value exactly.
pub proof fn lemma_round_trip(v: ValueV, s: ShapeV)
    requires
        fits(v, s),
        spec_encodable(v),
    ensures
        spec_decode(spec_encode(v), s) == Result::<ValueV, ErrorKind>::Ok(v),
    decreases v, s, 0int,
{
    match s {
        ShapeV::Any => {
            match v {
                ValueV::List(elems) => {
                    lemma_round_trip_seq(elems, ShapeV::Any);
                }
                ValueV::Dict(entries) => {
                    lemma_round_trip_pairs(entries, ShapeV::Any, ShapeV::Any);
                }
                _ => {}
            }
            assert(spec_decode(spec_encode(v), s) == Result::<ValueV, ErrorKind>::Ok(v));
        },
        ShapeV::Option(inner) => {
            match v {
                ValueV::Opt(opt) => match opt {
                    Option::Some(x) => {
                        lemma_round_trip(*x, *inner);
                    }
                    Option::None => {}
                },
                _ => {}
            }
            assert(spec_decode(spec_encode(v), s) == Result::<ValueV, ErrorKind>::Ok(v));
        },
        ShapeV::NewtypeStruct(inner) => {
            match v {
                ValueV::Newtype(x) => {
                    lemma_round_trip(*x, *inner);
                }
                _ => {}
            }
            assert(spec_decode(spec_encode(v), s) == Result::<ValueV, ErrorKind>::Ok(v));
        },
        ShapeV::Tuple(shapes) => {
            match v {
                ValueV::Tuple(elems) => {
                    lemma_round_trip_zip(elems, shapes);
                }
                _ => {}
            }
            assert(spec_decode(spec_encode(v), s) == Result::<ValueV, ErrorKind>::Ok(v));
        },
        ShapeV::List(inner) => {
            match v {
                ValueV::List(elems) => {
                    lemma_round_trip_seq(elems, *inner);
                }
                _ => {}
            }
            assert(spec_decode(spec_encode(v), s) == Result::<ValueV, ErrorKind>::Ok(v));
        },
        ShapeV::Dict(key_shape, val_shape) => {
            match v {
                ValueV::Dict(entries) => {
                    lemma_round_trip_pairs(entries, *key_shape, *val_shape);
                }
                _ => {}
            }
            assert(spec_decode(spec_encode(v), s) == Result::<ValueV, ErrorKind>::Ok(v));
        },
        ShapeV::Record(fields) => {
            match v {
                ValueV::Record(values) => {
                    lemma_round_trip_record(values, fields);
                }
                _ => {}
            }
            assert(spec_decode(spec_encode(v), s) == Result::<ValueV, ErrorKind>::Ok(v));
        },
        ShapeV::Enum(variants) => match v {
            ValueV::Variant(name, payload) => {
                let j = spec_find_named(variants, name)->0;
                assert(spec_find_named(variants, name) == Option::Some(j));
                match payload {
                    VariantPayloadV::Unit => {
                        assert(fits_variant(payload, variants[j].1));
                        assert(variants[j].1 is Unit);
                        assert(spec_decode(NodeV::Str(name), s) == Result::<
                            ValueV,
                            ErrorKind,
                        >::Ok(ValueV::Variant(name, VariantPayloadV::Unit)));
                    }
                    VariantPayloadV::Newtype(x) => {
                        assert(fits_variant(payload, variants[j].1));
                        match variants[j].1 {
                            VariantShapeV::Newtype(inner) => {
                                assert(fits(*x, *inner));
                                lemma_round_trip(*x, *inner);
                                assert(spec_decode_variant(spec_encode(*x), variants[j].1)
                                    == Result::<VariantPayloadV, ErrorKind>::Ok(
                                    VariantPayloadV::Newtype(x),
                                ));
                                assert(spec_decode_enum_entry(name, spec_encode(*x), variants)
                                    == Result::<ValueV, ErrorKind>::Ok(
                                    ValueV::Variant(name, VariantPayloadV::Newtype(x)),
                                ));
                                assert(spec_encode(v) == spec_nest(name, spec_encode(*x)));
                            }
                            _ => {
                                assert(false);
                            }
                        }
                    }
                    VariantPayloadV::Tuple(elems) => {
                        assert(fits_variant(payload, variants[j].1));
                        match variants[j].1 {
                            VariantShapeV::Tuple(shapes) => {
                                assert(elems.len() == shapes.len() && fits_zip(elems, shapes));
                                lemma_round_trip_zip(elems, shapes);
                                assert(spec_decode_variant(
                                    NodeV::Arr(spec_encode_seq(elems)),
                                    variants[j].1,
                                ) == Result::<VariantPayloadV, ErrorKind>::Ok(
                                    VariantPayloadV::Tuple(elems),
                                ));
                                assert(spec_decode_enum_entry(
                                    name,
                                    NodeV::Arr(spec_encode_seq(elems)),
                                    variants,
                                ) == Result::<ValueV, ErrorKind>::Ok(
                                    ValueV::Variant(name, VariantPayloadV::Tuple(elems)),
                                ));
                                assert(spec_encode(v) == spec_nest(
                                    name,
                                    NodeV::Arr(spec_encode_seq(elems)),
                                ));
                            }
                            _ => {
                                assert(false);
                            }
                        }
                    }
                    VariantPayloadV::Struct(values) => {
                        assert(fits_variant(payload, variants[j].1));
                        match variants[j].1 {
                            VariantShapeV::Struct(fields) => {
                                assert(fits_fields(values, fields));
                                lemma_round_trip_record(values, fields);
                                assert(spec_decode_variant(
                                    NodeV::Hash(spec_encode_fields(values)),
                                    variants[j].1,
                                ) == Result::<VariantPayloadV, ErrorKind>::Ok(
                                    VariantPayloadV::Struct(values),
                                ));
                                assert(spec_decode_enum_entry(
                                    name,
                                    NodeV::Hash(spec_encode_fields(values)),
                                    variants,
                                ) == Result::<ValueV, ErrorKind>::Ok(
                                    ValueV::Variant(name, VariantPayloadV::Struct(values)),
                                ));
                                assert(spec_encode(v) == spec_nest(
                                    name,
                                    NodeV::Hash(spec_encode_fields(values)),
                                ));
                            }
                            _ => {
                                assert(false);
                            }
                        }
                    }
                }
                assert(spec_decode(spec_encode(v), s) == Result::<ValueV, ErrorKind>::Ok(v));
            }
            _ => {}
        },
        _ => {
            assert(spec_decode(spec_encode(v), s) == Result::<ValueV, ErrorKind>::Ok(v));
        }
    }
}

} // verus!
