use value_codec::{deserialize, Node, Shape, Value, VariantPayload, VariantShape};

fn result_shape() -> Shape {
    Shape::Enum(vec![
        ("Ok".to_string(), VariantShape::Newtype(Box::new(Shape::U64))),
        ("Err".to_string(), VariantShape::Newtype(Box::new(Shape::Str))),
    ])
}

#[test]
fn test_deserializing_results() {
    let input = Node::Hash(vec![(Node::Str("Ok".to_string()), Node::Int(1234))]);
    let output = deserialize(&input, &result_shape()).unwrap();
    assert_eq!(
        Value::Variant(
            "Ok".to_string(),
            VariantPayload::Newtype(Box::new(Value::U64(1234)))
        ),
        output
    );

    let input = Node::Hash(vec![(
        Node::Str("Err".to_string()),
        Node::Str("something went wrong".to_string()),
    )]);
    let output = deserialize(&input, &result_shape()).unwrap();
    assert_eq!(
        Value::Variant(
            "Err".to_string(),
            VariantPayload::Newtype(Box::new(Value::Str(
                "something went wrong".to_string()
            )))
        ),
        output
    );
}
