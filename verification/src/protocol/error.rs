use vstd::prelude::*;

verus! {

/// Why bytes on the wire were rejected.
#[derive(Clone, Copy, Debug, PartialEq, Eq, Structural)]
pub enum ProtocolError {
    /// The input ended inside a field.
    UnexpectedEof,
    /// A VarInt went on after its fifth byte.
    VarIntTooLong,
    /// A length prefix was negative.
    NegativeLength(i32),
    /// A length prefix was larger than the limit that holds for it.
    LengthExceedsMax { length: usize, max: usize },
    /// The bytes of a string were not UTF-8.
    InvalidUtf8,
}

} // verus!
