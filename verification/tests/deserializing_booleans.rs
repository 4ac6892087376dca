use value_codec::{deserialize, Node, Shape, Value};

#[test]
fn test_deserializing_booleans() {
    let output = deserialize(&Node::Bool(true), &Shape::Bool).unwrap();
    assert_eq!(Value::Bool(true), output);

    let output = deserialize(&Node::Bool(false), &Shape::Bool).unwrap();
    assert_eq!(Value::Bool(false), output);
}
