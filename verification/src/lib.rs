//! A bidirectional codec between a statically typed data model and a
//! dynamically typed value tree, with verified contracts for both
//! directions.
//!
//! The value tree ([`Node`]) mirrors a host runtime's self-describing
//! object graph: null, booleans, integers, floats, text, interned
//! strings, byte strings, ordered sequences and ordered mappings.  The
//! typed model ([`Value`]) mirrors the data a calling program works
//! with: scalars, options, tuples, sequences, maps, records with named
//! fields, and enums.  A [`Shape`] describes the target of one decode
//! call, one variant per decode entry point.
//!
//! [`serialize`] walks a typed value top-down and produces a node;
//! [`deserialize`] dispatches on a node's runtime kind, directed by the
//! target shape, and reconstructs a typed value.  Sequences and
//! mappings are walked by indexed cursors ([`SequenceCursor`],
//! [`MappingCursor`]) rather than a host iterator protocol.  Enum
//! values travel under one shared wire convention: a unit variant is a
//! bare string holding the variant's name; every other variant is a
//! single-entry mapping from that name to a shape-specific payload
//! ([`nest`]).  Every failure is an [`Error`]: a kind from the unified
//! taxonomy plus a human-readable message, enough for a host
//! integration layer to raise a faithful native exception.
//!
//! What each operation returns is pinned down by the spec functions in
//! [`ser`] and [`de`]; [`laws`] states and proves the codec's laws over
//! those same functions, chief among them the round trip: decoding an
//! encoded value against a shape it conforms to reproduces the value
//! exactly.

pub mod cursor;
pub mod de;
pub mod error;
pub mod laws;
pub mod node;
pub mod ser;
pub mod shape;
pub mod value;

pub use cursor::{MappingCursor, SequenceCursor};
pub use de::deserialize;
pub use error::{Error, ErrorKind};
pub use node::Node;
pub use ser::{nest, serialize};
pub use shape::{Shape, VariantShape};
pub use value::{Value, VariantPayload};
