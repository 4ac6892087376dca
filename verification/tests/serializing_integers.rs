use value_codec::{serialize, Node, Value};

#[test]
fn test_serializing_integers() {
    let output = serialize(&Value::I64(123)).unwrap();
    assert_eq!(Node::Int(123), output);

    let output = serialize(&Value::I64(-123)).unwrap();
    assert_eq!(Node::Int(-123), output);

    let output = serialize(&Value::U64(123)).unwrap();
    assert_eq!(Node::Int(123), output);
}
