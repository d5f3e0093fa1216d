//! The ways in which the engine's operations fail.

use vstd::prelude::*;

verus! {

/// Why a buffer is not a frame.
#[derive(Debug, Clone, Copy, PartialEq, Eq, Structural)]
pub enum FramingError {
    /// The buffer is shorter than a frame header.
    BufferTooShort { found: usize },
    /// The length that the header declares is not the length of the buffer.
    LengthMismatch { expected: u64, found: usize },
    /// The packet type tag is none of the known ones.
    UnknownPacketType { tag: u8 },
    /// The codec tag is none of the known ones.
    UnknownCodecType { tag: u8 },
}

/// Why an operation of the engine did not succeed.
#[derive(Debug, Clone, Copy, PartialEq, Eq, Structural)]
pub enum StorageError {
    /// The advisory lock on the data directory was not obtained in time.
    InstanceLockUnavailable,
    /// The file system refused a read, a write, a create or a remove.
    Io,
    /// A persisted artifact is not a well-formed frame.
    Framing(FramingError),
    /// The payload would not fit in a frame whose length is a 64-bit number.
    PayloadTooLarge,
    /// The codec could not encode the value.
    Encode,
    /// The codec could not decode the payload.
    Decode,
    /// A loaded item carries another key than the manifest entry it was read for.
    KeyMismatch,
    /// A flush or a load was told of something that it had not asked for.
    OutOfTurn,
    /// A thread panicked while it held one of the engine's locks.
    PoisonedLock,
    /// The configuration has no section for the storage.
    ConfigMissing,
}

} // verus!
