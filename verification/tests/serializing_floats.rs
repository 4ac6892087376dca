use value_codec::{serialize, Node, Value};

#[test]
fn test_serializing_floats() {
    let output = serialize(&Value::Float(1.23f64.to_bits())).unwrap();
    match output {
        Node::Float(bits) => assert_eq!(1.23, f64::from_bits(bits)),
        other => panic!("expected a float node, got {:?}", other),
    }
}
