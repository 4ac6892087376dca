use value_codec::{serialize, Node, Value};

#[test]
fn test_serializing_booleans() {
    let output = serialize(&Value::Bool(true)).unwrap();
    assert_eq!(Node::Bool(true), output);

    let output = serialize(&Value::Bool(false)).unwrap();
    assert_eq!(Node::Bool(false), output);
}
