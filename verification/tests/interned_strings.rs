use value_codec::{deserialize, Node, Shape, Value, VariantPayload, VariantShape};

#[test]
fn test_decoding_interned_strings() {
    // An interned string answers every textual request like owned text.
    let input = Node::Sym("name".to_string());
    let output = deserialize(&input, &Shape::Str).unwrap();
    assert_eq!(Value::Str("name".to_string()), output);

    let output = deserialize(&input, &Shape::Any).unwrap();
    assert_eq!(Value::Str("name".to_string()), output);

    let input = Node::Sym("x".to_string());
    let output = deserialize(&input, &Shape::Char).unwrap();
    assert_eq!(Value::Char('x'), output);
}

#[test]
fn test_decoding_enum_envelope_with_interned_key() {
    let shape = Shape::Enum(vec![(
        "Ok".to_string(),
        VariantShape::Newtype(Box::new(Shape::U64)),
    )]);
    let input = Node::Hash(vec![(Node::Sym("Ok".to_string()), Node::Int(1))]);
    let output = deserialize(&input, &shape).unwrap();
    assert_eq!(
        Value::Variant(
            "Ok".to_string(),
            VariantPayload::Newtype(Box::new(Value::U64(1)))
        ),
        output
    );
}

#[test]
fn test_ignored_values() {
    // A skipped field's value always decodes to a unit placeholder,
    // whatever the node holds.
    let output = deserialize(&Node::Int(5), &Shape::Ignored).unwrap();
    assert_eq!(Value::Unit, output);

    let output = deserialize(&Node::Arr(vec![Node::Bool(true)]), &Shape::Ignored).unwrap();
    assert_eq!(Value::Unit, output);
}
