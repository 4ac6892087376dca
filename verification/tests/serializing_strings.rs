use value_codec::{serialize, Node, Value};

#[test]
fn test_serializing_strings() {
    let output = serialize(&Value::Char('\u{2603}')).unwrap();
    assert_eq!(Node::Str("\u{2603}".to_string()), output);

    let output = serialize(&Value::Str("Hello, world!".to_string())).unwrap();
    assert_eq!(Node::Str("Hello, world!".to_string()), output);

    let output = serialize(&Value::Str(String::from("Hello, world!"))).unwrap();
    assert_eq!(Node::Str("Hello, world!".to_string()), output);

    let output = serialize(&Value::Bytes(b"Hello, world!".to_vec())).unwrap();
    assert_eq!(Node::Bytes(b"Hello, world!".to_vec()), output);

    let output = serialize(&Value::Bytes(Vec::from(*b"Hello, world!"))).unwrap();
    assert_eq!(Node::Bytes(b"Hello, world!".to_vec()), output);
}
