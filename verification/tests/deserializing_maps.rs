use value_codec::{deserialize, Node, Shape, Value};

#[test]
fn test_deserializing_maps() {
    let input = Node::Hash(vec![
        (
            Node::Str("Yes".to_string()),
            Node::Str("No".to_string()),
        ),
        (
            Node::Str("Stop".to_string()),
            Node::Str("Go".to_string()),
        ),
        (
            Node::Str("High".to_string()),
            Node::Str("Low".to_string()),
        ),
    ]);
    let shape = Shape::Dict(Box::new(Shape::Str), Box::new(Shape::Str));
    let output = deserialize(&input, &shape).unwrap();
    match output {
        Value::Dict(entries) => {
            assert_eq!(3, entries.len());
            assert_eq!(
                (
                    Value::Str("Yes".to_string()),
                    Value::Str("No".to_string())
                ),
                entries[0]
            );
            assert_eq!(
                (
                    Value::Str("Stop".to_string()),
                    Value::Str("Go".to_string())
                ),
                entries[1]
            );
            assert_eq!(
                (
                    Value::Str("High".to_string()),
                    Value::Str("Low".to_string())
                ),
                entries[2]
            );
        }
        other => panic!("expected a map, got {:?}", other),
    }
}
