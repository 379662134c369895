//! Object payloads: the raw key or data material of one stored object.
//!
//! A payload is a closed tagged union over the supported algorithm families.
//! Each variant owns its raw bytes and knows, through its algorithm, the
//! byte length those bytes must have.

use vstd::prelude::*;

use crate::algorithm::{
    spec_generated_len, spec_payload_len_ok, Algorithm, AuthenticationAlg, OpaqueAlg, SymmetricAlg,
    WrapAlg, AUTHENTICATION_KEY_SIZE,
};
use crate::error::Error;

verus! {

/// The raw material of one object, tagged by algorithm family.
#[derive(Clone, Debug)]
pub enum Payload {
    /// An authentication key: two 128-bit session keys.
    AuthenticationKey(Vec<u8>),
    /// A wrap key: AEAD key material for sealing exported objects.
    WrapKey(WrapAlg, Vec<u8>),
    /// A symmetric encryption key.
    SymmetricKey(SymmetricAlg, Vec<u8>),
    /// An uninterpreted data blob.
    Opaque(OpaqueAlg, Vec<u8>),
}

impl Payload {
    /// The algorithm this payload was built for.
    pub open spec fn spec_algorithm(self) -> Algorithm {
        match self {
            Payload::AuthenticationKey(_) => Algorithm::Auth(AuthenticationAlg::YubicoAes),
            Payload::WrapKey(a, _) => Algorithm::Wrap(a),
            Payload::SymmetricKey(a, _) => Algorithm::Symmetric(a),
            Payload::Opaque(a, _) => Algorithm::Opaque(a),
        }
    }

    /// The raw bytes of this payload.
    pub open spec fn spec_data(self) -> Seq<u8> {
        match self {
            Payload::AuthenticationKey(b) => b@,
            Payload::WrapKey(_, b) => b@,
            Payload::SymmetricKey(_, b) => b@,
            Payload::Opaque(_, b) => b@,
        }
    }

    /// Well-formedness: the bytes have the length the algorithm demands.
    pub open spec fn wf(self) -> bool {
        spec_payload_len_ok(self.spec_algorithm(), self.spec_data().len())
    }

    /// Runtime counterpart of [`Payload::spec_algorithm`].
    pub fn algorithm(&self) -> (r: Algorithm)
        ensures
            r == self.spec_algorithm(),
    {
        match self {
            Payload::AuthenticationKey(_) => Algorithm::Auth(AuthenticationAlg::YubicoAes),
            Payload::WrapKey(a, _) => Algorithm::Wrap(*a),
            Payload::SymmetricKey(a, _) => Algorithm::Symmetric(*a),
            Payload::Opaque(a, _) => Algorithm::Opaque(*a),
        }
    }

    /// Borrow the raw bytes.
    pub fn data(&self) -> (r: &Vec<u8>)
        ensures
            r@ == self.spec_data(),
    {
        match self {
            Payload::AuthenticationKey(b) => b,
            Payload::WrapKey(_, b) => b,
            Payload::SymmetricKey(_, b) => b,
            Payload::Opaque(_, b) => b,
        }
    }

    /// The payload byte length, which always fits the metadata length field.
    pub fn len(&self) -> (r: u16)
        requires
            self.wf(),
        ensures
            r as nat == self.spec_data().len(),
    {
        let n = self.data().len();
        assert(n <= 0xffff);
        n as u16
    }

    /// An exact copy of this payload.
    pub fn duplicate(&self) -> (r: Payload)
        ensures
            r.spec_algorithm() == self.spec_algorithm(),
            r.spec_data() == self.spec_data(),
    {
        match self {
            Payload::AuthenticationKey(b) => Payload::AuthenticationKey(copy_bytes(b)),
            Payload::WrapKey(a, b) => Payload::WrapKey(*a, copy_bytes(b)),
            Payload::SymmetricKey(a, b) => Payload::SymmetricKey(*a, copy_bytes(b)),
            Payload::Opaque(a, b) => Payload::Opaque(*a, copy_bytes(b)),
        }
    }

    /// Deterministic payload generation: material of the algorithm's
    /// generated length.  The simulator generates reproducible material so
    /// that client software can be exercised deterministically; opaque blobs
    /// generate empty.
    pub fn generate(algorithm: Algorithm) -> (r: Payload)
        ensures
            r.wf(),
            r.spec_algorithm() == algorithm,
            r.spec_data() == Seq::new(spec_generated_len(algorithm), |i: int| 0u8),
    {
        match algorithm {
            Algorithm::Auth(AuthenticationAlg::YubicoAes) => {
                Payload::AuthenticationKey(zero_bytes(AUTHENTICATION_KEY_SIZE))
            },
            Algorithm::Wrap(a) => {
                let n: usize = match a {
                    WrapAlg::Aes128Ccm => 16,
                    WrapAlg::Aes192Ccm => 24,
                    WrapAlg::Aes256Ccm => 32,
                };
                Payload::WrapKey(a, zero_bytes(n))
            },
            Algorithm::Symmetric(a) => {
                let n: usize = match a {
                    SymmetricAlg::Aes128 => 16,
                    SymmetricAlg::Aes192 => 24,
                    SymmetricAlg::Aes256 => 32,
                };
                Payload::SymmetricKey(a, zero_bytes(n))
            },
            Algorithm::Opaque(a) => Payload::Opaque(a, zero_bytes(0)),
        }
    }

    /// Build a payload from caller-supplied bytes, validating their length
    /// for the algorithm.
    pub fn new(algorithm: Algorithm, data: &[u8]) -> (r: Result<Payload, Error>)
        ensures
            spec_payload_len_ok(algorithm, data@.len()) ==> (r matches Ok(p) && p.wf()
                && p.spec_algorithm() == algorithm && p.spec_data() == data@),
            !spec_payload_len_ok(algorithm, data@.len()) ==> r == Err::<Payload, Error>(
                Error::InvalidPayloadLength(algorithm),
            ),
    {
        let n = data.len();
        let ok: bool = match algorithm {
            Algorithm::Auth(AuthenticationAlg::YubicoAes) => n == AUTHENTICATION_KEY_SIZE,
            Algorithm::Wrap(WrapAlg::Aes128Ccm) => n == 16,
            Algorithm::Wrap(WrapAlg::Aes192Ccm) => n == 24,
            Algorithm::Wrap(WrapAlg::Aes256Ccm) => n == 32,
            Algorithm::Symmetric(SymmetricAlg::Aes128) => n == 16,
            Algorithm::Symmetric(SymmetricAlg::Aes192) => n == 24,
            Algorithm::Symmetric(SymmetricAlg::Aes256) => n == 32,
            Algorithm::Opaque(_) => n <= 0xffff,
        };
        if !ok {
            return Err(Error::InvalidPayloadLength(algorithm));
        }
        let bytes = vstd::slice::slice_to_vec(data);
        match algorithm {
            Algorithm::Auth(AuthenticationAlg::YubicoAes) => {
                Ok(Payload::AuthenticationKey(bytes))
            },
            Algorithm::Wrap(a) => Ok(Payload::WrapKey(a, bytes)),
            Algorithm::Symmetric(a) => Ok(Payload::SymmetricKey(a, bytes)),
            Algorithm::Opaque(a) => Ok(Payload::Opaque(a, bytes)),
        }
    }
}

/// A vector of `n` zero bytes.
pub fn zero_bytes(n: usize) -> (r: Vec<u8>)
    ensures
        r@ == Seq::new(n as nat, |i: int| 0u8),
{
    let mut v: Vec<u8> = Vec::new();
    let mut i: usize = 0;
    while i < n
        invariant
            i <= n,
            v@ == Seq::new(i as nat, |j: int| 0u8),
        decreases n - i,
    {
        v.push(0u8);
        assert(v@ =~= Seq::new((i + 1) as nat, |j: int| 0u8));
        i = i + 1;
    }
    v
}

/// An exact copy of a byte vector.
pub fn copy_bytes(b: &Vec<u8>) -> (r: Vec<u8>)
    ensures
        r@ == b@,
{
    vstd::slice::slice_to_vec(b.as_slice())
}

} // verus!
