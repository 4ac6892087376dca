use value_codec::{serialize, Node, Value};

#[test]
fn test_serializing_maps() {
    let input = Value::Dict(vec![
        (
            Value::Str("Yes".to_string()),
            Value::Str("No".to_string()),
        ),
        (
            Value::Str("Stop".to_string()),
            Value::Str("Go".to_string()),
        ),
        (
            Value::Str("High".to_string()),
            Value::Str("Low".to_string()),
        ),
    ]);
    let output = serialize(&input).unwrap();
    assert_eq!(
        Node::Hash(vec![
            (
                Node::Str("Yes".to_string()),
                Node::Str("No".to_string()),
            ),
            (
                Node::Str("Stop".to_string()),
                Node::Str("Go".to_string()),
            ),
            (
                Node::Str("High".to_string()),
                Node::Str("Low".to_string()),
            ),
        ]),
        output
    );
}
