use value_codec::{serialize, Node, Value};

#[test]
fn test_serializing_arrays() {
    let input = Value::Tuple(vec![Value::U64(1), Value::U64(2), Value::U64(3)]);
    let output = serialize(&input).unwrap();
    assert_eq!(
        Node::Arr(vec![Node::Int(1), Node::Int(2), Node::Int(3)]),
        output
    );
}
