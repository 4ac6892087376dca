use value_codec::{
    deserialize, serialize, Error, ErrorKind, Node, Shape, Value, VariantShape,
};

#[test]
fn test_type_mismatch() {
    let err = deserialize(&Node::Bool(true), &Shape::I64).unwrap_err();
    assert_eq!(ErrorKind::TypeMismatch, err.kind());
    assert_eq!("TypeError", err.class_name());

    let err = deserialize(&Node::Float(1.5f64.to_bits()), &Shape::I64).unwrap_err();
    assert_eq!(ErrorKind::TypeMismatch, err.kind());

    let err = deserialize(&Node::Float(1.5f64.to_bits()), &Shape::U64).unwrap_err();
    assert_eq!(ErrorKind::TypeMismatch, err.kind());
}

#[test]
fn test_unsupported_type() {
    let err = deserialize(&Node::Bytes(vec![1, 2]), &Shape::Any).unwrap_err();
    assert_eq!(ErrorKind::UnsupportedType, err.kind());
}

#[test]
fn test_unsupported_borrow() {
    for node in [
        Node::Null,
        Node::Int(1),
        Node::Str("text".to_string()),
        Node::Arr(vec![]),
    ] {
        let err = deserialize(&node, &Shape::BorrowedStr).unwrap_err();
        assert_eq!(ErrorKind::UnsupportedBorrow, err.kind());
        let err = deserialize(&node, &Shape::BorrowedBytes).unwrap_err();
        assert_eq!(ErrorKind::UnsupportedBorrow, err.kind());
    }
}

#[test]
fn test_invalid_enum_arity() {
    let shape = Shape::Enum(vec![
        ("A".to_string(), VariantShape::Unit),
        ("B".to_string(), VariantShape::Newtype(Box::new(Shape::U64))),
    ]);
    let input = Node::Hash(vec![
        (Node::Str("A".to_string()), Node::Null),
        (Node::Str("B".to_string()), Node::Int(1)),
    ]);
    let err = deserialize(&input, &shape).unwrap_err();
    assert_eq!(ErrorKind::InvalidEnumArity, err.kind());

    let input = Node::Hash(vec![]);
    let err = deserialize(&input, &shape).unwrap_err();
    assert_eq!(ErrorKind::InvalidEnumArity, err.kind());
}

#[test]
fn test_bare_string_as_non_unit_variant() {
    let shape = Shape::Enum(vec![
        ("A".to_string(), VariantShape::Unit),
        (
            "C".to_string(),
            VariantShape::Tuple(vec![Shape::U64, Shape::Bool]),
        ),
    ]);
    let err = deserialize(&Node::Str("C".to_string()), &shape).unwrap_err();
    assert_eq!(ErrorKind::TypeMismatch, err.kind());
}

#[test]
fn test_integer_overflow() {
    let err = serialize(&Value::U64(u64::MAX)).unwrap_err();
    assert_eq!(ErrorKind::IntegerOverflow, err.kind());
    assert_eq!("RangeError", err.class_name());

    let err = serialize(&Value::U64(i64::MAX as u64 + 1)).unwrap_err();
    assert_eq!(ErrorKind::IntegerOverflow, err.kind());

    let err = deserialize(&Node::Int(-5), &Shape::U64).unwrap_err();
    assert_eq!(ErrorKind::IntegerOverflow, err.kind());
}

#[test]
fn test_record_field_validation() {
    let shape = Shape::Record(vec![
        ("bar".to_string(), Shape::U64),
        ("baz".to_string(), Shape::Bool),
    ]);

    // missing field
    let input = Node::Hash(vec![(Node::Sym("bar".to_string()), Node::Int(1))]);
    let err = deserialize(&input, &shape).unwrap_err();
    assert_eq!(ErrorKind::Message, err.kind());

    // unknown field
    let input = Node::Hash(vec![
        (Node::Sym("bar".to_string()), Node::Int(1)),
        (Node::Sym("quux".to_string()), Node::Bool(true)),
    ]);
    let err = deserialize(&input, &shape).unwrap_err();
    assert_eq!(ErrorKind::Message, err.kind());

    // duplicate field
    let input = Node::Hash(vec![
        (Node::Sym("bar".to_string()), Node::Int(1)),
        (Node::Sym("bar".to_string()), Node::Int(2)),
    ]);
    let err = deserialize(&input, &shape).unwrap_err();
    assert_eq!(ErrorKind::Message, err.kind());
}

#[test]
fn test_unknown_variant() {
    let shape = Shape::Enum(vec![("A".to_string(), VariantShape::Unit)]);
    let err = deserialize(&Node::Str("Z".to_string()), &shape).unwrap_err();
    assert_eq!(ErrorKind::Message, err.kind());
}

#[test]
fn test_tuple_too_short() {
    let shape = Shape::Tuple(vec![Shape::I64, Shape::I64]);
    let err = deserialize(&Node::Arr(vec![Node::Int(1)]), &shape).unwrap_err();
    assert_eq!(ErrorKind::Message, err.kind());
}

#[test]
fn test_error_accessors() {
    let err = Error::new(ErrorKind::IndexOutOfRange, "index out of range".to_string());
    assert_eq!(ErrorKind::IndexOutOfRange, err.kind());
    assert_eq!("index out of range", err.message());
    assert_eq!("IndexError", err.class_name());
    assert_eq!("IndexError: index out of range", err.display_string());

    let err = Error::custom("boom".to_string());
    assert_eq!(ErrorKind::Message, err.kind());
    assert_eq!("RuntimeError: boom", err.display_string());
}

#[test]
fn test_utf8_bytes_from_text() {
    // A multi-byte character: decoding it as owned bytes yields its
    // UTF-8 encoding, not the character itself.
    let input = Node::Str("\u{2603}".to_string());
    let output = deserialize(&input, &Shape::Bytes).unwrap();
    assert_eq!(Value::Bytes(vec![226, 152, 131]), output);
}
