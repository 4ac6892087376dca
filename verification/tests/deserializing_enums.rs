use value_codec::{deserialize, Node, Shape, Value, VariantPayload, VariantShape};

fn enum_a() -> Shape {
    Shape::Enum(vec![
        ("A".to_string(), VariantShape::Unit),
        ("B".to_string(), VariantShape::Newtype(Box::new(Shape::U64))),
        (
            "C".to_string(),
            VariantShape::Tuple(vec![Shape::U64, Shape::Bool, Shape::Str]),
        ),
        (
            "D".to_string(),
            VariantShape::Struct(vec![("message".to_string(), Shape::Str)]),
        ),
    ])
}

#[test]
fn test_deserializing_enums() {
    let input = Node::Str("A".to_string());
    let output = deserialize(&input, &enum_a()).unwrap();
    assert_eq!(Value::Variant("A".to_string(), VariantPayload::Unit), output);

    let input = Node::Hash(vec![(Node::Str("B".to_string()), Node::Int(123))]);
    let output = deserialize(&input, &enum_a()).unwrap();
    assert_eq!(
        Value::Variant(
            "B".to_string(),
            VariantPayload::Newtype(Box::new(Value::U64(123)))
        ),
        output
    );

    let input = Node::Hash(vec![(
        Node::Str("C".to_string()),
        Node::Arr(vec![
            Node::Int(1234),
            Node::Bool(true),
            Node::Str("Hello, world!".to_string()),
        ]),
    )]);
    let output = deserialize(&input, &enum_a()).unwrap();
    assert_eq!(
        Value::Variant(
            "C".to_string(),
            VariantPayload::Tuple(vec![
                Value::U64(1234),
                Value::Bool(true),
                Value::Str("Hello, world!".to_string()),
            ])
        ),
        output
    );

    let input = Node::Hash(vec![(
        Node::Str("D".to_string()),
        Node::Hash(vec![(
            Node::Sym("message".to_string()),
            Node::Str("Hello, world!".to_string()),
        )]),
    )]);
    let output = deserialize(&input, &enum_a()).unwrap();
    assert_eq!(
        Value::Variant(
            "D".to_string(),
            VariantPayload::Struct(vec![(
                "message".to_string(),
                Value::Str("Hello, world!".to_string())
            )])
        ),
        output
    );
}
