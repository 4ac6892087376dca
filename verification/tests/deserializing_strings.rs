use value_codec::{deserialize, Node, Shape, Value};

#[test]
fn test_deserializing_strings() {
    let output = deserialize(&Node::Str("\u{2603}".to_string()), &Shape::Char).unwrap();
    assert_eq!(Value::Char('\u{2603}'), output);

    let input = Node::Str("Hello, world!".to_string());
    let output = deserialize(&input, &Shape::BorrowedStr);
    assert_eq!(
        r#"TypeError: invalid type: expected a borrowed string, got string "Hello, world!""#,
        output.unwrap_err().display_string()
    );

    let output = deserialize(&input, &Shape::Str).unwrap();
    assert_eq!(Value::Str("Hello, world!".to_string()), output);

    let output = deserialize(&input, &Shape::BorrowedBytes);
    assert_eq!(
        "TypeError: can't deserialize into byte slice",
        output.unwrap_err().display_string()
    );

    let output = deserialize(&input, &Shape::Bytes).unwrap();
    assert_eq!(Value::Bytes(b"Hello, world!".to_vec()), output);
}
