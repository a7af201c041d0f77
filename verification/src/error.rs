use vstd::prelude::*;

verus! {

/// Errors produced while reading or writing class file structures.
#[derive(Debug, Clone, Copy, PartialEq, Eq, Structural)]
pub enum Error {
    /// The data ended before the value could be read.
    UnexpectedEnd,
    /// A seek would move the position before the start of the data.
    InvalidSeek,
    /// A value does not fit into the integer type it is written as.
    ValueTooLarge,
    /// Bytes that are not a well-formed modified UTF-8 encoding.
    InvalidModifiedUtf8,
    /// A descriptor that does not follow the descriptor grammar.
    InvalidDescriptor,
    /// A name that is not valid for its kind.
    InvalidName,
    /// A tag byte with a value that is not defined for its place.
    UnknownTag,
    /// A constant pool index that is zero, too large, or the upper half of a `Long` or `Double`.
    MissingPoolEntry,
    /// A constant pool entry of another kind than the one expected.
    WrongPoolEntry,
    /// The constant pool would have more than 65535 slots.
    PoolOverflow,
    /// A bytecode offset that lies outside the code.
    LabelOutOfBounds,
    /// A bytecode offset, or a label, that was never given a counterpart.
    MissingLabel,
    /// A branch whose target offset cannot be represented.
    BranchOutOfRange,
    /// A `code_length` that is zero or larger than 65535.
    InvalidCodeLength,
    /// An opcode that is not defined, or not allowed where it stands.
    UnknownOpcode,
    /// A `tableswitch` with `low > high`, or a `lookupswitch` with a negative pair count.
    InvalidSwitch,
    /// A type path step of an unknown kind, or with a type argument index where none belongs.
    InvalidTypePath,
    /// The data does not start with `0xCAFEBABE`.
    WrongMagic,
    /// A class file version later than the latest one supported.
    UnsupportedVersion,
    /// A dynamic constant or call site whose bootstrap method is not there.
    MissingBootstrapMethod,
    /// An attribute that may appear only once appears again.
    DuplicateAttribute,
}

} // verus!
