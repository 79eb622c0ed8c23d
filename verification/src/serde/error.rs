//! Error types for deserialization.

use vstd::prelude::*;

verus! {

/// The reason a byte sequence failed UTF-8 validation.
#[derive(Debug, Clone, Copy, PartialEq, Eq, Structural)]
pub struct Utf8Error {
    /// Length of the longest prefix of the checked bytes that is valid UTF-8.
    pub valid_up_to: usize,
}

/// Deserialization error.
#[derive(Debug, Clone, Copy, PartialEq, Eq, Structural)]
pub enum Deserialize {
    /// Expected to read one more byte from a buffer, but it's empty/exhausted.
    ExpectedOneMoreByte,

    /// Expected `expected` more bytes from a buffer, but only `got` were left.
    ExpectedMoreBytes {
        /// The amount of bytes we expected from the buffer.
        expected: u64,
        /// The amount of bytes the buffer could still supply.
        got: u64,
    },

    /// Invalid boolean value: the byte read was neither `0` nor `1`.
    IllegalBoolean(u8),

    /// Invalid message kind byte.
    IllegalMessageType(u8),

    /// Invalid request discriminant byte.
    IllegalRequestType(u8),

    /// Invalid response discriminant byte.
    IllegalResponseType(u8),

    /// A text field's bytes are not valid UTF-8.
    IllegalUtf8String(Utf8Error),

    /// The buffer should be empty, but it still contains this many extra
    /// unprocessed bytes.
    ExtraDataLeft(usize),
}

} // verus!
