use value_codec::{deserialize, Node, Shape, Value};

#[test]
fn test_deserializing_options() {
    let shape = Shape::Option(Box::new(Shape::U64));

    let output = deserialize(&Node::Null, &shape).unwrap();
    assert_eq!(Value::Opt(None), output);

    let output = deserialize(&Node::Int(123), &shape).unwrap();
    assert_eq!(Value::Opt(Some(Box::new(Value::U64(123)))), output);
}
