use value_codec::{deserialize, Node, Shape, Value};

#[test]
fn test_deserializing_tuples() {
    // From nil
    let output = deserialize(&Node::Null, &Shape::Unit).unwrap();
    assert_eq!(Value::Unit, output);

    // From a homogeneous array
    let input = Node::Arr(vec![Node::Int(123), Node::Int(456), Node::Int(789)]);
    let shape = Shape::Tuple(vec![Shape::I64, Shape::I64, Shape::I64]);
    let output = deserialize(&input, &shape).unwrap();
    assert_eq!(
        Value::Tuple(vec![Value::I64(123), Value::I64(456), Value::I64(789)]),
        output
    );

    // From a heterogeneous array
    let input = Node::Arr(vec![
        Node::Int(123),
        Node::Bool(true),
        Node::Str("Hello, world!".to_string()),
    ]);
    let shape = Shape::Tuple(vec![Shape::I64, Shape::Bool, Shape::Str]);
    let output = deserialize(&input, &shape).unwrap();
    assert_eq!(
        Value::Tuple(vec![
            Value::I64(123),
            Value::Bool(true),
            Value::Str("Hello, world!".to_string()),
        ]),
        output
    );

    // From an array containing nil
    let input = Node::Arr(vec![
        Node::Int(123),
        Node::Null,
        Node::Str("Hello, world!".to_string()),
    ]);
    let shape = Shape::Tuple(vec![Shape::I64, Shape::Unit, Shape::Str]);
    let output = deserialize(&input, &shape).unwrap();
    assert_eq!(
        Value::Tuple(vec![
            Value::I64(123),
            Value::Unit,
            Value::Str("Hello, world!".to_string()),
        ]),
        output
    );
}
