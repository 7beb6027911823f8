use vstd::prelude::*;

verus! {

/// Why a content-store operation failed; either way nothing was recorded.
#[derive(Clone, Copy, Debug, PartialEq, Eq, Structural)]
pub enum StoreError {
    /// The encoder refused the pixel buffer.
    EncodeFailed,
    /// The encoded payload does not fit the ledger's size column.
    ImageTooLarge,
}

/// Why a user-invoked command failed.
#[derive(Clone, Copy, Debug, PartialEq, Eq, Structural)]
pub enum CommandError {
    /// No history row carries the requested id.
    NotFound,
}

/// Why stored image bytes could not be decoded on copy-out.
#[derive(Clone, Copy, Debug, PartialEq, Eq, Structural)]
pub enum DecodeError {
    /// The bytes are not a decodable image.
    InvalidImage,
}

} // verus!
