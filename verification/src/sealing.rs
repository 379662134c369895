//! Authenticated sealing and opening of wrap ciphertexts.
//!
//! Exported objects are sealed with AES-GCM through the `ring` crate: the
//! ciphertext is the encrypted envelope followed by a 16-byte authentication
//! tag, under a 12-byte nonce and empty associated data.  The store's own
//! logic is verified against the named function [`seal_of`]: what AES-GCM
//! returns for given key, nonce and plaintext.  Opening inverts sealing and
//! rejects every byte string that is not the sealing of some plaintext
//! under the same key and nonce.

use ring::aead::{Aad, LessSafeKey, Nonce, UnboundKey, AES_128_GCM, AES_256_GCM};
use vstd::prelude::*;

verus! {

/// Byte length of the AEAD authentication tag appended to the ciphertext.
pub const WRAPPED_DATA_MAC_SIZE: usize = 16;

/// Largest buffer the sealing primitive is asked to handle; far below the
/// AES-GCM input limit and far above any encoded envelope.
pub const MAX_SEAL_LEN: usize = 0xffff_ffff;

/// The ciphertext-with-tag that AES-GCM sealing returns for the given key
/// material (16 or 32 bytes, selecting AES-128 or AES-256), 12-byte nonce
/// and plaintext, with empty associated data.  A function of its arguments
/// alone.
pub uninterp spec fn seal_of(key: Seq<u8>, nonce: Seq<u8>, plaintext: Seq<u8>) -> Seq<u8>;

/// Relies on ring's `UnboundKey::new` with `AES_128_GCM` (accepts every
/// 16-byte key) and `LessSafeKey::seal_in_place_append_tag` (appends the
/// 16-byte tag; fails only on inputs far beyond `MAX_SEAL_LEN`).
#[verifier::external_body]
pub(crate) fn aead_seal_128(key: &Vec<u8>, nonce: &Vec<u8>, plaintext: &Vec<u8>) -> (r: Vec<u8>)
    requires
        key@.len() == 16,
        nonce@.len() == 12,
        plaintext@.len() <= MAX_SEAL_LEN,
    ensures
        r@ == seal_of(key@, nonce@, plaintext@),
        r@.len() == plaintext@.len() + WRAPPED_DATA_MAC_SIZE,
{
    let k = LessSafeKey::new(UnboundKey::new(&AES_128_GCM, key.as_slice()).unwrap());
    let mut n = [0u8; 12];
    n.copy_from_slice(&nonce[..12]);
    let mut buf = plaintext.clone();
    k.seal_in_place_append_tag(Nonce::assume_unique_for_key(n), Aad::empty(), &mut buf).unwrap();
    buf
}

/// Relies on ring's `UnboundKey::new` with `AES_256_GCM` (accepts every
/// 32-byte key) and `LessSafeKey::seal_in_place_append_tag` (appends the
/// 16-byte tag; fails only on inputs far beyond `MAX_SEAL_LEN`).
#[verifier::external_body]
pub(crate) fn aead_seal_256(key: &Vec<u8>, nonce: &Vec<u8>, plaintext: &Vec<u8>) -> (r: Vec<u8>)
    requires
        key@.len() == 32,
        nonce@.len() == 12,
        plaintext@.len() <= MAX_SEAL_LEN,
    ensures
        r@ == seal_of(key@, nonce@, plaintext@),
        r@.len() == plaintext@.len() + WRAPPED_DATA_MAC_SIZE,
{
    let k = LessSafeKey::new(UnboundKey::new(&AES_256_GCM, key.as_slice()).unwrap());
    let mut n = [0u8; 12];
    n.copy_from_slice(&nonce[..12]);
    let mut buf = plaintext.clone();
    k.seal_in_place_append_tag(Nonce::assume_unique_for_key(n), Aad::empty(), &mut buf).unwrap();
    buf
}

/// Relies on ring's `LessSafeKey::open_in_place` with `AES_128_GCM`: it
/// verifies the trailing 16-byte tag and decrypts in place, returning the
/// plaintext that sealing under the same key and nonce would produce this
/// ciphertext from, and failing on every other input.
#[verifier::external_body]
pub(crate) fn aead_open_128(key: &Vec<u8>, nonce: &Vec<u8>, ciphertext: &Vec<u8>) -> (r: Option<
    Vec<u8>,
>)
    requires
        key@.len() == 16,
        nonce@.len() == 12,
        ciphertext@.len() <= MAX_SEAL_LEN,
    ensures
        (match r {
            Some(pt) => {
                &&& pt@.len() + WRAPPED_DATA_MAC_SIZE == ciphertext@.len()
                &&& ciphertext@ == seal_of(key@, nonce@, pt@)
                &&& forall|q: Seq<u8>|
                    q.len() + WRAPPED_DATA_MAC_SIZE == ciphertext@.len() && ciphertext@ == seal_of(
                        key@,
                        nonce@,
                        q,
                    ) ==> q == pt@
            },
            None => forall|q: Seq<u8>|
                q.len() + WRAPPED_DATA_MAC_SIZE == ciphertext@.len() ==> ciphertext@ != seal_of(
                    key@,
                    nonce@,
                    q,
                ),
        }),
{
    let k = LessSafeKey::new(match UnboundKey::new(&AES_128_GCM, key.as_slice()) {
        Ok(u) => u,
        Err(_) => return None,
    });
    let mut n = [0u8; 12];
    n.copy_from_slice(&nonce[..12]);
    let mut buf = ciphertext.clone();
    match k.open_in_place(Nonce::assume_unique_for_key(n), Aad::empty(), &mut buf) {
        Ok(pt) => {
            let m = pt.len();
            buf.truncate(m);
            Some(buf)
        },
        Err(_) => None,
    }
}

/// Relies on ring's `LessSafeKey::open_in_place` with `AES_256_GCM`: it
/// verifies the trailing 16-byte tag and decrypts in place, returning the
/// plaintext that sealing under the same key and nonce would produce this
/// ciphertext from, and failing on every other input.
#[verifier::external_body]
pub(crate) fn aead_open_256(key: &Vec<u8>, nonce: &Vec<u8>, ciphertext: &Vec<u8>) -> (r: Option<
    Vec<u8>,
>)
    requires
        key@.len() == 32,
        nonce@.len() == 12,
        ciphertext@.len() <= MAX_SEAL_LEN,
    ensures
        (match r {
            Some(pt) => {
                &&& pt@.len() + WRAPPED_DATA_MAC_SIZE == ciphertext@.len()
                &&& ciphertext@ == seal_of(key@, nonce@, pt@)
                &&& forall|q: Seq<u8>|
                    q.len() + WRAPPED_DATA_MAC_SIZE == ciphertext@.len() && ciphertext@ == seal_of(
                        key@,
                        nonce@,
                        q,
                    ) ==> q == pt@
            },
            None => forall|q: Seq<u8>|
                q.len() + WRAPPED_DATA_MAC_SIZE == ciphertext@.len() ==> ciphertext@ != seal_of(
                    key@,
                    nonce@,
                    q,
                ),
        }),
{
    let k = LessSafeKey::new(match UnboundKey::new(&AES_256_GCM, key.as_slice()) {
        Ok(u) => u,
        Err(_) => return None,
    });
    let mut n = [0u8; 12];
    n.copy_from_slice(&nonce[..12]);
    let mut buf = ciphertext.clone();
    match k.open_in_place(Nonce::assume_unique_for_key(n), Aad::empty(), &mut buf) {
        Ok(pt) => {
            let m = pt.len();
            buf.truncate(m);
            Some(buf)
        },
        Err(_) => None,
    }
}

} // verus!
