//! Wrap/unwrap protocol tests: round trip, gating, tamper detection, and
//! the exact wire format.

use mockhsm::algorithm::{Algorithm, SymmetricAlg, WrapAlg};
use mockhsm::capability::{Capability, Domain, EXPORTABLE_UNDER_WRAP};
use mockhsm::error::Error;
use mockhsm::object::{ObjectLabel, ObjectOrigin, ObjectType};
use mockhsm::store::{Objects, WrapNonce};

fn label(text: &str) -> ObjectLabel {
    ObjectLabel::new(text.as_bytes().to_vec()).unwrap()
}

fn nonce12() -> WrapNonce {
    WrapNonce::new(vec![0u8; 12])
}

/// A store with a 256-bit wrap key at id 10 and an exportable 256-bit
/// symmetric key at id 20.
fn store_with_keys() -> Objects {
    let mut store = Objects::default();
    store
        .generate(
            10,
            ObjectType::WrapKey,
            Algorithm::Wrap(WrapAlg::Aes256Ccm),
            label("wrap key"),
            Capability::all(),
            Capability::all(),
            Domain::all(),
        )
        .unwrap();
    store
        .generate(
            20,
            ObjectType::SymmetricKey,
            Algorithm::Symmetric(SymmetricAlg::Aes256),
            label("test key"),
            Capability::new(EXPORTABLE_UNDER_WRAP),
            Capability::none(),
            Domain::all(),
        )
        .unwrap();
    store
}

#[test]
fn wrap_unwrap_scenario() {
    let mut store = store_with_keys();
    let original = store.get(20, ObjectType::SymmetricKey).unwrap().payload.data().clone();

    let ct = store.wrap(10, 20, ObjectType::SymmetricKey, &nonce12()).unwrap();
    // Ciphertext = encoded envelope (27-byte header + label + payload) + tag.
    assert!(!ct.is_empty());
    assert_eq!(ct.len(), 27 + "test key".len() + 32 + 16);

    // Wrap is non-destructive and does not promote the stored original.
    let still = store.get(20, ObjectType::SymmetricKey).unwrap();
    assert_eq!(still.object_info.origin, ObjectOrigin::Generated);

    store.remove(20, ObjectType::SymmetricKey).unwrap();
    let handle = store.unwrap(10, &nonce12(), ct).unwrap();
    assert_eq!(handle.object_id, 20);
    assert_eq!(handle.object_type, ObjectType::SymmetricKey);

    let restored = store.get(20, ObjectType::SymmetricKey).unwrap();
    assert_eq!(restored.payload.data(), &original);
    assert_eq!(restored.object_info.origin, ObjectOrigin::WrappedGenerated);
    assert_eq!(restored.object_info.label.bytes, b"test key".to_vec());
    assert_eq!(restored.object_info.capabilities.bits, EXPORTABLE_UNDER_WRAP);
    assert_eq!(restored.object_info.length, 32);
}

#[test]
fn rewrap_keeps_promoted_origin() {
    let mut store = store_with_keys();
    let ct = store.wrap(10, 20, ObjectType::SymmetricKey, &nonce12()).unwrap();
    store.remove(20, ObjectType::SymmetricKey).unwrap();
    store.unwrap(10, &nonce12(), ct).unwrap();
    assert_eq!(
        store.get(20, ObjectType::SymmetricKey).unwrap().object_info.origin,
        ObjectOrigin::WrappedGenerated
    );

    // Wrapping the already-wrapped object again promotes nothing further.
    let ct2 = store.wrap(10, 20, ObjectType::SymmetricKey, &nonce12()).unwrap();
    store.remove(20, ObjectType::SymmetricKey).unwrap();
    store.unwrap(10, &nonce12(), ct2).unwrap();
    assert_eq!(
        store.get(20, ObjectType::SymmetricKey).unwrap().object_info.origin,
        ObjectOrigin::WrappedGenerated
    );
}

#[test]
fn wrap_missing_wrap_key() {
    let mut store = store_with_keys();
    let r = store.wrap(99, 20, ObjectType::SymmetricKey, &nonce12());
    assert_eq!(r, Err(Error::WrapKeyNotFound(99)));
}

#[test]
fn wrap_missing_target() {
    let mut store = store_with_keys();
    let r = store.wrap(10, 99, ObjectType::SymmetricKey, &nonce12());
    assert_eq!(r, Err(Error::ObjectNotFound(99, ObjectType::SymmetricKey)));
}

#[test]
fn wrap_capability_gating() {
    let mut store = store_with_keys();
    // An object without the export-under-wrap capability.
    store
        .generate(
            21,
            ObjectType::SymmetricKey,
            Algorithm::Symmetric(SymmetricAlg::Aes128),
            label("sealed in"),
            Capability::none(),
            Capability::none(),
            Domain::all(),
        )
        .unwrap();
    let r = store.wrap(10, 21, ObjectType::SymmetricKey, &nonce12());
    assert_eq!(r, Err(Error::CapabilityViolation(21, ObjectType::SymmetricKey)));
}

#[test]
fn algorithm_gating() {
    let mut store = store_with_keys();
    // A wrap key declaring an algorithm outside the supported set.
    store
        .generate(
            11,
            ObjectType::WrapKey,
            Algorithm::Wrap(WrapAlg::Aes192Ccm),
            label("wk192"),
            Capability::all(),
            Capability::all(),
            Domain::all(),
        )
        .unwrap();
    let expected = Error::UnsupportedWrapAlgorithm(Algorithm::Wrap(WrapAlg::Aes192Ccm));
    assert_eq!(
        store.wrap(11, 20, ObjectType::SymmetricKey, &nonce12()),
        Err(expected)
    );
    let ct = store.wrap(10, 20, ObjectType::SymmetricKey, &nonce12()).unwrap();
    assert_eq!(store.unwrap(11, &nonce12(), ct), Err(expected));
}

#[test]
fn wrap_nonce_too_short() {
    let mut store = store_with_keys();
    let short = WrapNonce::new(vec![0u8; 5]);
    assert_eq!(
        store.wrap(10, 20, ObjectType::SymmetricKey, &short),
        Err(Error::NonceTooShort)
    );
    assert_eq!(
        store.unwrap(10, &short, vec![0u8; 64]),
        Err(Error::NonceTooShort)
    );
}

#[test]
fn unwrap_duplicate_handle_rejected() {
    let mut store = store_with_keys();
    let ct = store.wrap(10, 20, ObjectType::SymmetricKey, &nonce12()).unwrap();
    // The source object is still stored, so its handle is occupied.
    let r = store.unwrap(10, &nonce12(), ct);
    assert_eq!(r, Err(Error::AlreadyExists(20, ObjectType::SymmetricKey)));
    assert_eq!(
        store.get(20, ObjectType::SymmetricKey).unwrap().object_info.origin,
        ObjectOrigin::Generated
    );
}

#[test]
fn tamper_detection_every_bit() {
    let mut store = store_with_keys();
    let ct = store.wrap(10, 20, ObjectType::SymmetricKey, &nonce12()).unwrap();
    store.remove(20, ObjectType::SymmetricKey).unwrap();
    for i in 0..ct.len() {
        for bit in 0..8 {
            let mut tampered = ct.clone();
            tampered[i] ^= 1 << bit;
            let r = store.unwrap(10, &nonce12(), tampered);
            assert_eq!(r, Err(Error::DecryptFailed), "byte {} bit {}", i, bit);
        }
    }
    // The untampered ciphertext still unwraps after all those failures.
    assert!(store.unwrap(10, &nonce12(), ct).is_ok());
}

#[test]
fn unwrap_truncated_or_garbage_fails() {
    let mut store = store_with_keys();
    let ct = store.wrap(10, 20, ObjectType::SymmetricKey, &nonce12()).unwrap();
    store.remove(20, ObjectType::SymmetricKey).unwrap();
    let mut truncated = ct.clone();
    truncated.pop();
    assert_eq!(store.unwrap(10, &nonce12(), truncated), Err(Error::DecryptFailed));
    assert_eq!(store.unwrap(10, &nonce12(), Vec::new()), Err(Error::DecryptFailed));
    assert_eq!(
        store.unwrap(10, &nonce12(), vec![0x5a; 64]),
        Err(Error::DecryptFailed)
    );
}

#[test]
fn unwrap_wrong_key_fails() {
    let mut store = store_with_keys();
    // Import a wrap key with different key material at id 12.
    store
        .put(
            12,
            ObjectType::WrapKey,
            Algorithm::Wrap(WrapAlg::Aes256Ccm),
            label("other key"),
            Capability::all(),
            Capability::all(),
            Domain::all(),
            &[7u8; 32],
        )
        .unwrap();
    let ct = store.wrap(10, 20, ObjectType::SymmetricKey, &nonce12()).unwrap();
    store.remove(20, ObjectType::SymmetricKey).unwrap();
    assert_eq!(store.unwrap(12, &nonce12(), ct), Err(Error::DecryptFailed));
}

#[test]
fn unwrap_nonce_prefix_only_matters() {
    let mut store = store_with_keys();
    // A 13-byte nonce whose 13th byte differs still opens: only the first
    // 12 bytes are used.
    let mut long = vec![0u8; 13];
    long[12] = 0xff;
    let ct = store.wrap(10, 20, ObjectType::SymmetricKey, &WrapNonce::new(vec![0u8; 13])).unwrap();
    store.remove(20, ObjectType::SymmetricKey).unwrap();
    assert!(store.unwrap(10, &WrapNonce::new(long), ct).is_ok());
}

#[test]
fn wrap_matches_direct_aead_sealing() {
    // The ciphertext is exactly the AES-256-GCM sealing of the documented
    // envelope encoding: 27-byte header, label bytes, payload bytes.
    let mut store = store_with_keys();
    let ct = store.wrap(10, 20, ObjectType::SymmetricKey, &nonce12()).unwrap();

    let mut plaintext: Vec<u8> = Vec::new();
    plaintext.extend_from_slice(&20u16.to_le_bytes()); // object id
    plaintext.push(8); // type tag: symmetric key
    plaintext.push(7); // algorithm tag: AES-256
    plaintext.extend_from_slice(&EXPORTABLE_UNDER_WRAP.to_le_bytes()); // capabilities
    plaintext.extend_from_slice(&0u64.to_le_bytes()); // delegated capabilities
    plaintext.extend_from_slice(&0xffffu16.to_le_bytes()); // domains
    plaintext.extend_from_slice(&32u16.to_le_bytes()); // payload length
    plaintext.push(1); // sequence
    plaintext.push(17); // origin tag: wrapped-generated
    plaintext.push(8); // label length
    plaintext.extend_from_slice(b"test key");
    plaintext.extend_from_slice(&[0u8; 32]); // deterministic key material

    // Seal the same plaintext directly with ring under the generated
    // (deterministic, all-zero) wrap key and the zero nonce.
    let unbound = ring::aead::UnboundKey::new(&ring::aead::AES_256_GCM, &[0u8; 32]).unwrap();
    let sealing_key = ring::aead::LessSafeKey::new(unbound);
    let mut expected = plaintext.clone();
    sealing_key
        .seal_in_place_append_tag(
            ring::aead::Nonce::assume_unique_for_key([0u8; 12]),
            ring::aead::Aad::empty(),
            &mut expected,
        )
        .unwrap();
    assert_eq!(ct, expected);
}

#[test]
fn unwrap_malformed_envelope() {
    // A perfectly authentic ciphertext whose plaintext is not an envelope:
    // sealed directly with ring under the stored (all-zero) wrap key.
    let mut store = store_with_keys();
    let unbound = ring::aead::UnboundKey::new(&ring::aead::AES_256_GCM, &[0u8; 32]).unwrap();
    let sealing_key = ring::aead::LessSafeKey::new(unbound);
    let mut buf = vec![1u8, 2, 3];
    sealing_key
        .seal_in_place_append_tag(
            ring::aead::Nonce::assume_unique_for_key([0u8; 12]),
            ring::aead::Aad::empty(),
            &mut buf,
        )
        .unwrap();
    assert_eq!(store.unwrap(10, &nonce12(), buf), Err(Error::MalformedEnvelope));
}
