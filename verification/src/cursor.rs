//! Indexed cursors over container nodes.
//!
//! Stepping through a sequence by index avoids the host runtime's
//! generic iterator machinery; both cursors are created fresh for one
//! container's decode and discarded when that decode returns.

use vstd::prelude::*;
use vstd::string::StringExecFns;

use crate::error::{Error, ErrorKind};
use crate::node::Node;

verus! {

/// A forward cursor over a sequence node's elements.
///
/// The position only ever increases; running past the end is not an
/// error but end-of-sequence.
pub struct SequenceCursor<'a> {
    items: &'a Vec<Node>,
    pos: usize,
}

impl<'a> SequenceCursor<'a> {
    /// The elements the cursor walks.
    pub closed spec fn source(self) -> Seq<Node> {
        self.items@
    }

    /// How many elements have been yielded so far.
    pub closed spec fn position(self) -> nat {
        self.pos as nat
    }

    /// Starts a cursor at the first element of `items`.
    pub fn new(items: &'a Vec<Node>) -> (cursor: Self)
        ensures
            cursor.source() == items@,
            cursor.position() == 0,
    {
        SequenceCursor { items, pos: 0 }
    }

    /// Yields the next element, or `None` at end-of-sequence.
    pub fn next(&mut self) -> (r: Option<&'a Node>)
        ensures
            final(self).source() == old(self).source(),
            old(self).position() < old(self).source().len() ==> {
                &&& r matches Some(element) && *element == old(self).source()[
                    old(self).position() as int
                ]
                &&& final(self).position() == old(self).position() + 1
            },
            old(self).position() >= old(self).source().len() ==> {
                &&& r is None
                &&& final(self).position() == old(self).position()
            },
    {
        if self.pos < self.items.len() {
            let element = &self.items[self.pos];
            self.pos = self.pos + 1;
            Some(element)
        } else {
            None
        }
    }
}

/// A cursor over a mapping node's entries.
///
/// Each entry's key is peeked before its value is consumed, so that
/// key-decoding and value-decoding can each fail independently without
/// advancing past a skipped entry.
pub struct MappingCursor<'a> {
    entries: &'a Vec<(Node, Node)>,
    pos: usize,
    key_seen: bool,
}

impl<'a> MappingCursor<'a> {
    /// The key/value pairs the cursor walks.
    pub closed spec fn source(self) -> Seq<(Node, Node)> {
        self.entries@
    }

    /// How many entries have been consumed so far.
    pub closed spec fn position(self) -> nat {
        self.pos as nat
    }

    /// Whether the current entry's key has been peeked.
    pub closed spec fn key_pending(self) -> bool {
        self.key_seen
    }

    /// Starts a cursor at the first entry of `entries`.
    pub fn new(entries: &'a Vec<(Node, Node)>) -> (cursor: Self)
        ensures
            cursor.source() == entries@,
            cursor.position() == 0,
            !cursor.key_pending(),
    {
        MappingCursor { entries, pos: 0, key_seen: false }
    }

    /// Peeks the current entry's key without consuming the entry, or
    /// reports `None` at end-of-mapping.
    pub fn peek_key(&mut self) -> (r: Option<&'a Node>)
        ensures
            final(self).source() == old(self).source(),
            final(self).position() == old(self).position(),
            old(self).position() < old(self).source().len() ==> {
                &&& r matches Some(key) && *key == old(self).source()[
                    old(self).position() as int
                ].0
                &&& final(self).key_pending()
            },
            old(self).position() >= old(self).source().len() ==> {
                &&& r is None
                &&& final(self).key_pending() == old(self).key_pending()
            },
    {
        if self.pos < self.entries.len() {
            self.key_seen = true;
            Some(&self.entries[self.pos].0)
        } else {
            None
        }
    }

    /// Consumes the current entry and yields its value.
    ///
    /// Asking for a value before its key has been peeked is a logic
    /// error; asking past the end of the mapping is an index error.
    pub fn next_value(&mut self) -> (r: Result<&'a Node, Error>)
        ensures
            final(self).source() == old(self).source(),
            old(self).position() >= old(self).source().len() ==> {
                &&& r matches Err(e) && e.kind == ErrorKind::IndexOutOfRange
                &&& final(self).position() == old(self).position()
                &&& final(self).key_pending() == old(self).key_pending()
            },
            old(self).position() < old(self).source().len() && !old(self).key_pending() ==> {
                &&& r matches Err(e) && e.kind == ErrorKind::MapAccessOutOfOrder
                &&& final(self).position() == old(self).position()
                &&& final(self).key_pending() == old(self).key_pending()
            },
            old(self).position() < old(self).source().len() && old(self).key_pending() ==> {
                &&& r matches Ok(value) && *value == old(self).source()[
                    old(self).position() as int
                ].1
                &&& final(self).position() == old(self).position() + 1
                &&& !final(self).key_pending()
            },
    {
        if self.pos >= self.entries.len() {
            Err(Error::new(ErrorKind::IndexOutOfRange, String::from_str("index out of range")))
        } else if !self.key_seen {
            Err(Error::new(
                ErrorKind::MapAccessOutOfOrder,
                String::from_str("value requested before key"),
            ))
        } else {
            let value = &self.entries[self.pos].1;
            self.pos = self.pos + 1;
            self.key_seen = false;
            Ok(value)
        }
    }
}

} // verus!
