use vstd::prelude::*;

verus! {

/// Reasons a raw byte buffer fails to decode into a frame or message.
#[derive(Clone, Copy, Debug, PartialEq, Eq, Structural)]
pub enum DecodeError {
    /// The buffer ended before every field demanded by the frame type was read.
    InsufficientData,
    /// The first byte was not the frame start marker 0x7E.
    InvalidStartByte,
    /// The trailing checksum did not match the recomputed value.
    InvalidChecksum,
}

/// Recoverable conditions raised while correlating an inbound frame.
#[derive(Clone, Copy, Debug, PartialEq, Eq, Structural)]
pub enum RegistryError {
    /// The inbound frame's identifier matched no outstanding sent message.
    NoMatchingRequest,
}

/// Failures of the durable device store.
#[derive(Clone, Copy, Debug, PartialEq, Eq, Structural)]
pub enum PersistenceError {
    /// The store could not be opened.
    OpenFailed,
    /// The stored device records could not be read back.
    LoadFailed,
}

} // verus!
