//! The dynamic value tree: one tagged node per element of the host
//! runtime's object graph.

use vstd::prelude::*;

verus! {

broadcast use vstd::std_specs::vec::group_vec_axioms;

/// One element of the dynamic value tree.
///
/// A node is owned by whichever side last produced it; the codec never
/// mutates a node once observed, only reads it or builds new ones.
/// Floating-point payloads are carried as their IEEE-754 bit pattern, so
/// that the tree itself stays free of float arithmetic.
/// `Hash` is an ordered association list: entries keep their insertion
/// order and the encoder performs no key deduplication.
#[derive(Debug, PartialEq)]
pub enum Node {
    /// The host runtime's null.
    Null,
    /// A boolean.
    Bool(bool),
    /// A signed machine integer, the host's integer representation.
    Int(i64),
    /// A double-precision float, by its IEEE-754 bit pattern.
    Float(u64),
    /// Owned UTF-8 text.
    Str(String),
    /// An interned string (a symbol).
    Sym(String),
    /// An owned byte string.
    Bytes(Vec<u8>),
    /// An ordered sequence of nodes.
    Arr(Vec<Node>),
    /// A mapping, kept as an ordered list of key/value pairs.
    Hash(Vec<(Node, Node)>),
}

/// The mathematical abstraction of a [`Node`]: text as sequences of
/// characters, children as `Seq`s.
pub enum NodeV {
    Null,
    Bool(bool),
    Int(i64),
    Float(u64),
    Str(Seq<char>),
    Sym(Seq<char>),
    Bytes(Seq<u8>),
    Arr(Seq<NodeV>),
    Hash(Seq<(NodeV, NodeV)>),
}

/// The abstraction function from a tree node to its mathematical view.
pub open spec fn node_view(node: Node) -> NodeV
    decreases node, 1int,
{
    match node {
        Node::Null => NodeV::Null,
        Node::Bool(b) => NodeV::Bool(b),
        Node::Int(i) => NodeV::Int(i),
        Node::Float(bits) => NodeV::Float(bits),
        Node::Str(s) => NodeV::Str(s@),
        Node::Sym(s) => NodeV::Sym(s@),
        Node::Bytes(b) => NodeV::Bytes(b@),
        Node::Arr(items) => NodeV::Arr(node_seq_view(items@)),
        Node::Hash(entries) => NodeV::Hash(node_pair_seq_view(entries@)),
    }
}

/// The element-wise view of a sequence of nodes.
pub open spec fn node_seq_view(items: Seq<Node>) -> Seq<NodeV>
    decreases items, 0int,
{
    Seq::new(
        items.len(),
        |i: int|
            if 0 <= i < items.len() {
                node_view(items[i])
            } else {
                NodeV::Null
            },
    )
}

/// The entry-wise view of a sequence of key/value node pairs.
pub open spec fn node_pair_seq_view(entries: Seq<(Node, Node)>) -> Seq<(NodeV, NodeV)>
    decreases entries, 0int,
{
    Seq::new(
        entries.len(),
        |i: int|
            if 0 <= i < entries.len() {
                (node_view(entries[i].0), node_view(entries[i].1))
            } else {
                (NodeV::Null, NodeV::Null)
            },
    )
}

impl View for Node {
    type V = NodeV;

    open spec fn view(&self) -> NodeV {
        node_view(*self)
    }
}

/// The kind of a node, as a short name for diagnostics.
pub open spec fn spec_kind_name(n: NodeV) -> Seq<char> {
    match n {
        NodeV::Null => "nil"@,
        NodeV::Bool(_) => "boolean"@,
        NodeV::Int(_) => "integer"@,
        NodeV::Float(_) => "float"@,
        NodeV::Str(_) => "string"@,
        NodeV::Sym(_) => "symbol"@,
        NodeV::Bytes(_) => "byte string"@,
        NodeV::Arr(_) => "array"@,
        NodeV::Hash(_) => "hash"@,
    }
}

impl Node {
    /// A short name for the node's kind, for diagnostics.
    pub fn kind_name(&self) -> (name: &'static str)
        ensures
            name@ == spec_kind_name(self@),
    {
        match self {
            Node::Null => "nil",
            Node::Bool(_) => "boolean",
            Node::Int(_) => "integer",
            Node::Float(_) => "float",
            Node::Str(_) => "string",
            Node::Sym(_) => "symbol",
            Node::Bytes(_) => "byte string",
            Node::Arr(_) => "array",
            Node::Hash(_) => "hash",
        }
    }
}

} // verus!
