use value_codec::{deserialize, Node, Shape, Value};

#[test]
fn test_deserializing_structs() {
    let output = deserialize(&Node::Null, &Shape::UnitStruct).unwrap();
    assert_eq!(Value::UnitStruct, output);

    let shape = Shape::NewtypeStruct(Box::new(Shape::U64));
    let output = deserialize(&Node::Int(123), &shape).unwrap();
    assert_eq!(Value::Newtype(Box::new(Value::U64(123))), output);

    let input = Node::Arr(vec![
        Node::Int(123),
        Node::Bool(true),
        Node::Str("Hello, world!".to_string()),
    ]);
    let shape = Shape::Tuple(vec![Shape::U64, Shape::Bool, Shape::Str]);
    let output = deserialize(&input, &shape).unwrap();
    assert_eq!(
        Value::Tuple(vec![
            Value::U64(123),
            Value::Bool(true),
            Value::Str("Hello, world!".to_string()),
        ]),
        output
    );

    let input = Node::Hash(vec![(
        Node::Sym("message".to_string()),
        Node::Str("Hello, world!".to_string()),
    )]);
    let shape = Shape::Record(vec![("message".to_string(), Shape::Str)]);
    let output = deserialize(&input, &shape).unwrap();
    assert_eq!(
        Value::Record(vec![(
            "message".to_string(),
            Value::Str("Hello, world!".to_string())
        )]),
        output
    );
}
