//! Error taxonomy of the object store.
//!
//! Every failure is local to one operation, leaves the store unchanged, and
//! is distinguishable by kind so a dispatch layer can map it to the proper
//! protocol-level status code.

use vstd::prelude::*;

use crate::algorithm::Algorithm;
use crate::object::ObjectType;

verus! {

/// A failure of one store operation.
#[derive(Clone, Copy, Debug, PartialEq, Eq, Structural)]
pub enum Error {
    /// The referenced wrap key does not exist (carries the missing id).
    WrapKeyNotFound(u16),
    /// The referenced target object does not exist.
    ObjectNotFound(u16, ObjectType),
    /// The wrap key declares an algorithm the store cannot seal with.
    UnsupportedWrapAlgorithm(Algorithm),
    /// The target object lacks the export-under-wrap capability.
    CapabilityViolation(u16, ObjectType),
    /// The caller-supplied wrap nonce holds fewer than 12 bytes.
    NonceTooShort,
    /// Authenticated decryption failed: wrong key or tampered ciphertext.
    DecryptFailed,
    /// The recovered plaintext is not a well-formed wrapped-object envelope.
    MalformedEnvelope,
    /// An insert targeted an already-occupied handle.
    AlreadyExists(u16, ObjectType),
    /// Supplied payload bytes have the wrong length for the algorithm.
    InvalidPayloadLength(Algorithm),
    /// A label longer than the 40-byte maximum.
    LabelTooLong,
}

} // verus!
