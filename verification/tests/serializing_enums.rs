use value_codec::{serialize, Node, Value, VariantPayload};

#[test]
fn test_serializing_enums() {
    let output = serialize(&Value::Variant("A".to_string(), VariantPayload::Unit)).unwrap();
    assert_eq!(Node::Str("A".to_string()), output);

    let input = Value::Variant(
        "B".to_string(),
        VariantPayload::Newtype(Box::new(Value::U64(123))),
    );
    let output = serialize(&input).unwrap();
    assert_eq!(
        Node::Hash(vec![(Node::Str("B".to_string()), Node::Int(123))]),
        output
    );

    let input = Value::Variant(
        "C".to_string(),
        VariantPayload::Tuple(vec![
            Value::U64(123),
            Value::Bool(true),
            Value::Str("Hello, world!".to_string()),
        ]),
    );
    let output = serialize(&input).unwrap();
    assert_eq!(
        Node::Hash(vec![(
            Node::Str("C".to_string()),
            Node::Arr(vec![
                Node::Int(123),
                Node::Bool(true),
                Node::Str("Hello, world!".to_string()),
            ]),
        )]),
        output
    );

    let input = Value::Variant(
        "D".to_string(),
        VariantPayload::Struct(vec![(
            "message".to_string(),
            Value::Str("Hello, world!".to_string()),
        )]),
    );
    let output = serialize(&input).unwrap();
    assert_eq!(
        Node::Hash(vec![(
            Node::Str("D".to_string()),
            Node::Hash(vec![(
                Node::Sym("message".to_string()),
                Node::Str("Hello, world!".to_string()),
            )]),
        )]),
        output
    );
}
