//! The unified error model: one kind per failure class, plus a
//! human-readable message, carrying enough information for a host
//! integration layer to raise a faithful native exception.

use vstd::prelude::*;
use vstd::string::StringExecFns;

verus! {

/// The failure classes of the codec.
#[derive(Debug, Clone, Copy, PartialEq, Eq, Structural)]
pub enum ErrorKind {
    /// The node's kind does not match the requested target shape.
    TypeMismatch,
    /// The node's kind has no decode mapping at all.
    UnsupportedType,
    /// A borrowed string or byte slice was requested; the tree's
    /// lifetime cannot be proven to outlive the typed value.
    UnsupportedBorrow,
    /// An enum envelope mapping did not have exactly one entry.
    InvalidEnumArity,
    /// An integer value does not fit the target representation.
    IntegerOverflow,
    /// A cursor was asked for an element past the end of its source.
    IndexOutOfRange,
    /// A mapping value was requested before its key.
    MapAccessOutOfOrder,
    /// A message propagated from the typed-model side's own validation.
    Message,
}

/// The name of the host exception class that a given error kind maps to
/// when re-raised into the host runtime.
pub open spec fn spec_class_name(kind: ErrorKind) -> Seq<char> {
    match kind {
        ErrorKind::TypeMismatch => "TypeError"@,
        ErrorKind::UnsupportedType => "TypeError"@,
        ErrorKind::UnsupportedBorrow => "TypeError"@,
        ErrorKind::InvalidEnumArity => "TypeError"@,
        ErrorKind::IntegerOverflow => "RangeError"@,
        ErrorKind::IndexOutOfRange => "IndexError"@,
        ErrorKind::MapAccessOutOfOrder => "RuntimeError"@,
        ErrorKind::Message => "RuntimeError"@,
    }
}

/// A codec error: a failure kind and a human-readable message.
#[derive(Debug)]
pub struct Error {
    /// The failure class.
    pub kind: ErrorKind,
    /// The human-readable description.
    pub message: String,
}

impl Error {
    /// Builds an error of the given kind with the given message.
    pub fn new(kind: ErrorKind, message: String) -> (e: Error)
        ensures
            e.kind == kind,
            e.message@ == message@,
    {
        Error { kind, message }
    }

    /// Builds a `Message`-kind error, as the typed-model framework does
    /// for its own validation failures.
    pub fn custom(message: String) -> (e: Error)
        ensures
            e.kind == ErrorKind::Message,
            e.message@ == message@,
    {
        Error { kind: ErrorKind::Message, message }
    }

    /// The failure class of this error.
    pub fn kind(&self) -> (k: ErrorKind)
        ensures
            k == self.kind,
    {
        self.kind
    }

    /// The message of this error.
    pub fn message(&self) -> (m: &str)
        ensures
            m@ == self.message@,
    {
        self.message.as_str()
    }

    /// The name of the host exception class this error maps to.
    pub fn class_name(&self) -> (n: &'static str)
        ensures
            n@ == spec_class_name(self.kind),
    {
        match self.kind {
            ErrorKind::TypeMismatch => "TypeError",
            ErrorKind::UnsupportedType => "TypeError",
            ErrorKind::UnsupportedBorrow => "TypeError",
            ErrorKind::InvalidEnumArity => "TypeError",
            ErrorKind::IntegerOverflow => "RangeError",
            ErrorKind::IndexOutOfRange => "IndexError",
            ErrorKind::MapAccessOutOfOrder => "RuntimeError",
            ErrorKind::Message => "RuntimeError",
        }
    }

    /// The error as the host runtime would display the exception:
    /// the class name, a separator, and the message.
    pub fn display_string(&self) -> (s: String)
        ensures
            s@ == spec_class_name(self.kind) + ": "@ + self.message@,
    {
        let mut out = String::new();
        out.append(self.class_name());
        out.append(": ");
        out.append(self.message.as_str());
        out
    }
}

} // verus!
