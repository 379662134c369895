//! In-memory object store of a simulated hardware security module (HSM).
//!
//! The store keeps a device's key/object inventory: metadata records paired
//! with raw key material, addressed by a composite handle (object id plus
//! object type).  It offers the usual lifecycle operations (generate, put,
//! get, remove, iterate) and the secure key-export protocol: `wrap` seals an
//! object's metadata and payload under another stored wrap key with
//! authenticated encryption, and `unwrap` opens such a ciphertext and inserts
//! the reconstructed object.

pub mod algorithm;
pub mod capability;
pub mod codec;
pub mod error;
pub mod object;
pub mod payload;
pub mod sealing;
pub mod store;
