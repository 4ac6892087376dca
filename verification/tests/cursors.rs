use value_codec::{nest, ErrorKind, MappingCursor, Node, SequenceCursor};

#[test]
fn test_sequence_cursor_walks_in_order() {
    let items = vec![Node::Int(1), Node::Int(2)];
    let mut cursor = SequenceCursor::new(&items);
    assert_eq!(Some(&Node::Int(1)), cursor.next());
    assert_eq!(Some(&Node::Int(2)), cursor.next());
    assert_eq!(None, cursor.next());
    assert_eq!(None, cursor.next());
}

#[test]
fn test_mapping_cursor_peeks_before_consuming() {
    let entries = vec![
        (Node::Str("k1".to_string()), Node::Int(1)),
        (Node::Str("k2".to_string()), Node::Int(2)),
    ];
    let mut cursor = MappingCursor::new(&entries);

    // Peeking twice does not advance.
    assert_eq!(Some(&Node::Str("k1".to_string())), cursor.peek_key());
    assert_eq!(Some(&Node::Str("k1".to_string())), cursor.peek_key());
    assert_eq!(&Node::Int(1), cursor.next_value().unwrap());

    assert_eq!(Some(&Node::Str("k2".to_string())), cursor.peek_key());
    assert_eq!(&Node::Int(2), cursor.next_value().unwrap());

    assert_eq!(None, cursor.peek_key());
}

#[test]
fn test_mapping_cursor_value_before_key() {
    let entries = vec![(Node::Str("k".to_string()), Node::Int(1))];
    let mut cursor = MappingCursor::new(&entries);
    let err = cursor.next_value().unwrap_err();
    assert_eq!(ErrorKind::MapAccessOutOfOrder, err.kind());
}

#[test]
fn test_mapping_cursor_past_end() {
    let entries = vec![(Node::Str("k".to_string()), Node::Int(1))];
    let mut cursor = MappingCursor::new(&entries);
    cursor.peek_key();
    cursor.next_value().unwrap();
    // The mapping is exhausted; peeking reports the end, and forcing a
    // value out anyway is an index error.
    assert_eq!(None, cursor.peek_key());
    let err = cursor.next_value().unwrap_err();
    assert_eq!(ErrorKind::IndexOutOfRange, err.kind());
}

#[test]
fn test_nest_builds_single_entry_envelope() {
    let envelope = nest("Ok", Node::Int(1234));
    assert_eq!(
        Node::Hash(vec![(Node::Str("Ok".to_string()), Node::Int(1234))]),
        envelope
    );
}
