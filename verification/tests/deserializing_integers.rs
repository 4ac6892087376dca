use value_codec::{deserialize, Node, Shape, Value};

#[test]
fn test_deserializing_integers() {
    let output = deserialize(&Node::Int(123), &Shape::I64).unwrap();
    assert_eq!(Value::I64(123), output);

    let output = deserialize(&Node::Int(-123), &Shape::I64).unwrap();
    assert_eq!(Value::I64(-123), output);

    let output = deserialize(&Node::Int(123), &Shape::U64).unwrap();
    assert_eq!(Value::U64(123), output);
}
