use value_codec::{deserialize, Node, Shape, Value};

#[test]
fn test_deserializing_vecs() {
    let input = Node::Arr(vec![Node::Int(1), Node::Int(2), Node::Int(3)]);
    let shape = Shape::List(Box::new(Shape::I64));
    let output = deserialize(&input, &shape).unwrap();
    assert_eq!(
        Value::List(vec![Value::I64(1), Value::I64(2), Value::I64(3)]),
        output
    );
}
