//! Algorithm identifiers.
//!
//! The store supports a closed, finite set of algorithm families.  Each
//! algorithm determines the byte length of the key material it governs
//! (opaque blobs alone are variable-length), and each has a one-byte tag
//! used by the wrap envelope encoding.

use vstd::prelude::*;

verus! {

/// Authentication-key algorithms.
#[derive(Clone, Copy, Debug, PartialEq, Eq, Structural)]
pub enum AuthenticationAlg {
    YubicoAes,
}

/// Wrap-key algorithms: AEAD ciphers used to seal exported objects.
#[derive(Clone, Copy, Debug, PartialEq, Eq, Structural)]
pub enum WrapAlg {
    Aes128Ccm,
    Aes192Ccm,
    Aes256Ccm,
}

/// Symmetric-key algorithms.
#[derive(Clone, Copy, Debug, PartialEq, Eq, Structural)]
pub enum SymmetricAlg {
    Aes128,
    Aes192,
    Aes256,
}

/// Opaque-object algorithms: uninterpreted data blobs.
#[derive(Clone, Copy, Debug, PartialEq, Eq, Structural)]
pub enum OpaqueAlg {
    Data,
    X509Certificate,
}

/// An algorithm identifier, tagged by family.
#[derive(Clone, Copy, Debug, PartialEq, Eq, Structural)]
pub enum Algorithm {
    Auth(AuthenticationAlg),
    Wrap(WrapAlg),
    Symmetric(SymmetricAlg),
    Opaque(OpaqueAlg),
}

/// Byte length of the key material of a wrap key with the given algorithm.
pub open spec fn spec_wrap_key_len(a: WrapAlg) -> nat {
    match a {
        WrapAlg::Aes128Ccm => 16,
        WrapAlg::Aes192Ccm => 24,
        WrapAlg::Aes256Ccm => 32,
    }
}

/// Byte length of the key material of a symmetric key with the given algorithm.
pub open spec fn spec_symmetric_key_len(a: SymmetricAlg) -> nat {
    match a {
        SymmetricAlg::Aes128 => 16,
        SymmetricAlg::Aes192 => 24,
        SymmetricAlg::Aes256 => 32,
    }
}

/// Byte length of an authentication key: two 128-bit session keys.
pub const AUTHENTICATION_KEY_SIZE: usize = 32;

/// Is `n` an admissible payload byte length for algorithm `a`?
///
/// Fixed for every key algorithm; opaque blobs may have any length that
/// fits the 16-bit length field of the metadata record.
pub open spec fn spec_payload_len_ok(a: Algorithm, n: nat) -> bool {
    match a {
        Algorithm::Auth(AuthenticationAlg::YubicoAes) => n == AUTHENTICATION_KEY_SIZE as nat,
        Algorithm::Wrap(w) => n == spec_wrap_key_len(w),
        Algorithm::Symmetric(s) => n == spec_symmetric_key_len(s),
        Algorithm::Opaque(_) => n <= 0xffff,
    }
}

/// Byte length of the material produced when generating a payload for `a`.
///
/// Opaque blobs have no natural generated size; generation yields an empty
/// blob for them.
pub open spec fn spec_generated_len(a: Algorithm) -> nat {
    match a {
        Algorithm::Auth(AuthenticationAlg::YubicoAes) => AUTHENTICATION_KEY_SIZE as nat,
        Algorithm::Wrap(w) => spec_wrap_key_len(w),
        Algorithm::Symmetric(s) => spec_symmetric_key_len(s),
        Algorithm::Opaque(_) => 0,
    }
}

/// Runtime counterpart of [`spec_payload_len_ok`].
pub fn payload_len_ok(a: Algorithm, n: usize) -> (r: bool)
    ensures
        r == spec_payload_len_ok(a, n as nat),
{
    match a {
        Algorithm::Auth(AuthenticationAlg::YubicoAes) => n == AUTHENTICATION_KEY_SIZE,
        Algorithm::Wrap(WrapAlg::Aes128Ccm) => n == 16,
        Algorithm::Wrap(WrapAlg::Aes192Ccm) => n == 24,
        Algorithm::Wrap(WrapAlg::Aes256Ccm) => n == 32,
        Algorithm::Symmetric(SymmetricAlg::Aes128) => n == 16,
        Algorithm::Symmetric(SymmetricAlg::Aes192) => n == 24,
        Algorithm::Symmetric(SymmetricAlg::Aes256) => n == 32,
        Algorithm::Opaque(_) => n <= 0xffff,
    }
}

/// One-byte envelope tag of an algorithm.
pub open spec fn spec_algorithm_tag(a: Algorithm) -> u8 {
    match a {
        Algorithm::Auth(AuthenticationAlg::YubicoAes) => 1,
        Algorithm::Wrap(WrapAlg::Aes128Ccm) => 2,
        Algorithm::Wrap(WrapAlg::Aes192Ccm) => 3,
        Algorithm::Wrap(WrapAlg::Aes256Ccm) => 4,
        Algorithm::Symmetric(SymmetricAlg::Aes128) => 5,
        Algorithm::Symmetric(SymmetricAlg::Aes192) => 6,
        Algorithm::Symmetric(SymmetricAlg::Aes256) => 7,
        Algorithm::Opaque(OpaqueAlg::Data) => 8,
        Algorithm::Opaque(OpaqueAlg::X509Certificate) => 9,
    }
}

/// The algorithm with the given envelope tag, if the tag is assigned.
pub open spec fn spec_algorithm_from_tag(t: u8) -> Option<Algorithm> {
    if t == 1 {
        Some(Algorithm::Auth(AuthenticationAlg::YubicoAes))
    } else if t == 2 {
        Some(Algorithm::Wrap(WrapAlg::Aes128Ccm))
    } else if t == 3 {
        Some(Algorithm::Wrap(WrapAlg::Aes192Ccm))
    } else if t == 4 {
        Some(Algorithm::Wrap(WrapAlg::Aes256Ccm))
    } else if t == 5 {
        Some(Algorithm::Symmetric(SymmetricAlg::Aes128))
    } else if t == 6 {
        Some(Algorithm::Symmetric(SymmetricAlg::Aes192))
    } else if t == 7 {
        Some(Algorithm::Symmetric(SymmetricAlg::Aes256))
    } else if t == 8 {
        Some(Algorithm::Opaque(OpaqueAlg::Data))
    } else if t == 9 {
        Some(Algorithm::Opaque(OpaqueAlg::X509Certificate))
    } else {
        None
    }
}

/// Tag assignment is injective: decoding the tag of `a` yields `a` again.
pub proof fn lemma_algorithm_tag_round_trip(a: Algorithm)
    ensures
        spec_algorithm_from_tag(spec_algorithm_tag(a)) == Some(a),
{
}

impl Algorithm {
    /// Runtime counterpart of [`spec_algorithm_tag`].
    pub fn tag(&self) -> (r: u8)
        ensures
            r == spec_algorithm_tag(*self),
    {
        match self {
            Algorithm::Auth(AuthenticationAlg::YubicoAes) => 1,
            Algorithm::Wrap(WrapAlg::Aes128Ccm) => 2,
            Algorithm::Wrap(WrapAlg::Aes192Ccm) => 3,
            Algorithm::Wrap(WrapAlg::Aes256Ccm) => 4,
            Algorithm::Symmetric(SymmetricAlg::Aes128) => 5,
            Algorithm::Symmetric(SymmetricAlg::Aes192) => 6,
            Algorithm::Symmetric(SymmetricAlg::Aes256) => 7,
            Algorithm::Opaque(OpaqueAlg::Data) => 8,
            Algorithm::Opaque(OpaqueAlg::X509Certificate) => 9,
        }
    }

    /// Runtime counterpart of [`spec_algorithm_from_tag`].
    pub fn from_tag(t: u8) -> (r: Option<Algorithm>)
        ensures
            r == spec_algorithm_from_tag(t),
    {
        if t == 1 {
            Some(Algorithm::Auth(AuthenticationAlg::YubicoAes))
        } else if t == 2 {
            Some(Algorithm::Wrap(WrapAlg::Aes128Ccm))
        } else if t == 3 {
            Some(Algorithm::Wrap(WrapAlg::Aes192Ccm))
        } else if t == 4 {
            Some(Algorithm::Wrap(WrapAlg::Aes256Ccm))
        } else if t == 5 {
            Some(Algorithm::Symmetric(SymmetricAlg::Aes128))
        } else if t == 6 {
            Some(Algorithm::Symmetric(SymmetricAlg::Aes192))
        } else if t == 7 {
            Some(Algorithm::Symmetric(SymmetricAlg::Aes256))
        } else if t == 8 {
            Some(Algorithm::Opaque(OpaqueAlg::Data))
        } else if t == 9 {
            Some(Algorithm::Opaque(OpaqueAlg::X509Certificate))
        } else {
            None
        }
    }
}

} // verus!
