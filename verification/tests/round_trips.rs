use value_codec::{deserialize, serialize, Node, Shape, Value, VariantPayload, VariantShape};

fn round_trip(value: Value, shape: Shape) {
    let node = serialize(&value).unwrap();
    let back = deserialize(&node, &shape).unwrap();
    assert_eq!(value, back);
}

#[test]
fn test_round_trip_scalars() {
    round_trip(Value::Unit, Shape::Unit);
    round_trip(Value::Bool(true), Shape::Bool);
    round_trip(Value::I64(i64::MIN), Shape::I64);
    round_trip(Value::I64(i64::MAX), Shape::I64);
    round_trip(Value::U64(i64::MAX as u64), Shape::U64);
    round_trip(Value::Float(2.5f64.to_bits()), Shape::Float);
    round_trip(Value::Char('x'), Shape::Char);
    round_trip(Value::Str("Hello, world!".to_string()), Shape::Str);
    round_trip(Value::Bytes(vec![0, 159, 146, 150]), Shape::Bytes);
}

#[test]
fn test_round_trip_options() {
    let shape = Shape::Option(Box::new(Shape::U64));
    round_trip(Value::Opt(None), shape);
    let shape = Shape::Option(Box::new(Shape::U64));
    round_trip(Value::Opt(Some(Box::new(Value::U64(7)))), shape);
}

#[test]
fn test_round_trip_sequences() {
    round_trip(Value::List(vec![]), Shape::List(Box::new(Shape::I64)));
    round_trip(
        Value::List(vec![Value::I64(1), Value::I64(2), Value::I64(3)]),
        Shape::List(Box::new(Shape::I64)),
    );
    round_trip(
        Value::Tuple(vec![Value::I64(1), Value::Bool(false)]),
        Shape::Tuple(vec![Shape::I64, Shape::Bool]),
    );
}

#[test]
fn test_round_trip_maps() {
    let dict_shape = Shape::Dict(Box::new(Shape::Str), Box::new(Shape::I64));
    round_trip(Value::Dict(vec![]), dict_shape);

    let dict_shape = Shape::Dict(Box::new(Shape::Str), Box::new(Shape::I64));
    round_trip(
        Value::Dict(vec![
            (Value::Str("a".to_string()), Value::I64(1)),
            (Value::Str("b".to_string()), Value::I64(2)),
        ]),
        dict_shape,
    );
}

#[test]
fn test_round_trip_records() {
    let record = Value::Record(vec![
        ("bar".to_string(), Value::U64(1234)),
        ("baz".to_string(), Value::Bool(false)),
    ]);

    // The wire form keys each field by an interned string.
    let node = serialize(&record).unwrap();
    assert_eq!(
        Node::Hash(vec![
            (Node::Sym("bar".to_string()), Node::Int(1234)),
            (Node::Sym("baz".to_string()), Node::Bool(false)),
        ]),
        node
    );

    let shape = Shape::Record(vec![
        ("bar".to_string(), Shape::U64),
        ("baz".to_string(), Shape::Bool),
    ]);
    round_trip(record, shape);
}

#[test]
fn test_round_trip_enums() {
    fn enum_shape() -> Shape {
        Shape::Enum(vec![
            ("A".to_string(), VariantShape::Unit),
            ("B".to_string(), VariantShape::Newtype(Box::new(Shape::U64))),
            (
                "C".to_string(),
                VariantShape::Tuple(vec![Shape::U64, Shape::Bool]),
            ),
            (
                "D".to_string(),
                VariantShape::Struct(vec![("message".to_string(), Shape::Str)]),
            ),
        ])
    }
    round_trip(
        Value::Variant("A".to_string(), VariantPayload::Unit),
        enum_shape(),
    );
    round_trip(
        Value::Variant(
            "B".to_string(),
            VariantPayload::Newtype(Box::new(Value::U64(123))),
        ),
        enum_shape(),
    );
    round_trip(
        Value::Variant(
            "C".to_string(),
            VariantPayload::Tuple(vec![Value::U64(9), Value::Bool(true)]),
        ),
        enum_shape(),
    );
    round_trip(
        Value::Variant(
            "D".to_string(),
            VariantPayload::Struct(vec![(
                "message".to_string(),
                Value::Str("hi".to_string()),
            )]),
        ),
        enum_shape(),
    );
}

#[test]
fn test_round_trip_any() {
    round_trip(Value::I64(5), Shape::Any);
    round_trip(
        Value::List(vec![Value::Bool(true), Value::Str("x".to_string())]),
        Shape::Any,
    );
    round_trip(
        Value::Dict(vec![(Value::Str("k".to_string()), Value::I64(1))]),
        Shape::Any,
    );
}
