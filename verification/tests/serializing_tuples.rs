use value_codec::{serialize, Node, Value};

#[test]
fn test_serializing_tuples() {
    // To nil
    let output = serialize(&Value::Unit).unwrap();
    assert_eq!(Node::Null, output);

    // To a homogeneous array
    let input = Value::Tuple(vec![Value::I64(1), Value::I64(2), Value::I64(3)]);
    let output = serialize(&input).unwrap();
    assert_eq!(
        Node::Arr(vec![Node::Int(1), Node::Int(2), Node::Int(3)]),
        output
    );

    // To a heterogeneous array
    let input = Value::Tuple(vec![
        Value::U64(1234),
        Value::Bool(true),
        Value::Str("Hello, world!".to_string()),
    ]);
    let output = serialize(&input).unwrap();
    assert_eq!(
        Node::Arr(vec![
            Node::Int(1234),
            Node::Bool(true),
            Node::Str("Hello, world!".to_string()),
        ]),
        output
    );

    // To an array containing nil
    let input = Value::Tuple(vec![
        Value::U64(1234),
        Value::Unit,
        Value::Str("Hello, world!".to_string()),
    ]);
    let output = serialize(&input).unwrap();
    assert_eq!(
        Node::Arr(vec![
            Node::Int(1234),
            Node::Null,
            Node::Str("Hello, world!".to_string()),
        ]),
        output
    );
}
