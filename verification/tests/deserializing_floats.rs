use value_codec::{deserialize, Node, Shape, Value};

#[test]
fn test_deserializing_floats() {
    let input = Node::Float(1.23f64.to_bits());
    let output = deserialize(&input, &Shape::Float).unwrap();
    match output {
        Value::Float(bits) => assert_eq!(1.23, f64::from_bits(bits)),
        other => panic!("expected a float, got {:?}", other),
    }
}
