//! Lifecycle tests: bootstrap state, generate/put/get/remove/iter, and the
//! duplicate-handle contract.

use mockhsm::algorithm::{Algorithm, AuthenticationAlg, OpaqueAlg, SymmetricAlg, WrapAlg};
use mockhsm::capability::{Capability, Domain, EXPORTABLE_UNDER_WRAP};
use mockhsm::error::Error;
use mockhsm::object::{ObjectLabel, ObjectOrigin, ObjectType, DEFAULT_AUTHENTICATION_KEY_ID};
use mockhsm::store::Objects;

fn label(text: &str) -> ObjectLabel {
    ObjectLabel::new(text.as_bytes().to_vec()).unwrap()
}

#[test]
fn bootstrap_invariant() {
    let store = Objects::default();
    let listing = store.iter();
    assert_eq!(listing.len(), 1);

    let boot = store
        .get(DEFAULT_AUTHENTICATION_KEY_ID, ObjectType::AuthenticationKey)
        .expect("default authentication key must exist");
    assert_eq!(boot.object_info.object_id, DEFAULT_AUTHENTICATION_KEY_ID);
    assert_eq!(boot.object_info.object_type, ObjectType::AuthenticationKey);
    assert_eq!(boot.object_info.capabilities.bits, u64::MAX);
    assert_eq!(boot.object_info.delegated_capabilities.bits, u64::MAX);
    assert_eq!(boot.object_info.domains.bits, 0xffff);
    assert_eq!(boot.object_info.origin, ObjectOrigin::Imported);
    assert_eq!(boot.object_info.sequence, 1);
    assert_eq!(
        boot.object_info.algorithm,
        Algorithm::Auth(AuthenticationAlg::YubicoAes)
    );
    assert_eq!(boot.object_info.length, 32);
    assert_eq!(boot.payload.data().len(), 32);
}

#[test]
fn get_absent_returns_none() {
    let store = Objects::default();
    assert!(store.get(99, ObjectType::Opaque).is_none());
}

#[test]
fn generate_then_get() {
    let mut store = Objects::default();
    store
        .generate(
            20,
            ObjectType::SymmetricKey,
            Algorithm::Symmetric(SymmetricAlg::Aes256),
            label("sym"),
            Capability::new(EXPORTABLE_UNDER_WRAP),
            Capability::none(),
            Domain::all(),
        )
        .unwrap();
    let o = store.get(20, ObjectType::SymmetricKey).unwrap();
    assert_eq!(o.object_info.origin, ObjectOrigin::Generated);
    assert_eq!(o.object_info.length, 32);
    assert_eq!(o.payload.data().as_slice(), &[0u8; 32]);
    assert_eq!(o.object_info.label.bytes, b"sym".to_vec());
    assert_eq!(o.object_info.sequence, 1);
}

#[test]
fn duplicate_generate_rejected() {
    let mut store = Objects::default();
    store
        .generate(
            7,
            ObjectType::Opaque,
            Algorithm::Opaque(OpaqueAlg::Data),
            label("first"),
            Capability::none(),
            Capability::none(),
            Domain::all(),
        )
        .unwrap();
    let second = store.generate(
        7,
        ObjectType::Opaque,
        Algorithm::Opaque(OpaqueAlg::Data),
        label("second"),
        Capability::all(),
        Capability::all(),
        Domain::all(),
    );
    assert_eq!(second, Err(Error::AlreadyExists(7, ObjectType::Opaque)));
    // The store is unchanged: the first object is still there, untouched.
    let o = store.get(7, ObjectType::Opaque).unwrap();
    assert_eq!(o.object_info.label.bytes, b"first".to_vec());
    assert_eq!(o.object_info.capabilities.bits, 0);
    assert_eq!(store.iter().len(), 2);
}

#[test]
fn duplicate_put_rejected() {
    let mut store = Objects::default();
    store
        .put(
            8,
            ObjectType::Opaque,
            Algorithm::Opaque(OpaqueAlg::Data),
            label("blob"),
            Capability::none(),
            Capability::none(),
            Domain::all(),
            &[1, 2, 3],
        )
        .unwrap();
    let again = store.put(
        8,
        ObjectType::Opaque,
        Algorithm::Opaque(OpaqueAlg::Data),
        label("other"),
        Capability::none(),
        Capability::none(),
        Domain::all(),
        &[9, 9],
    );
    assert_eq!(again, Err(Error::AlreadyExists(8, ObjectType::Opaque)));
    let o = store.get(8, ObjectType::Opaque).unwrap();
    assert_eq!(o.payload.data().as_slice(), &[1, 2, 3]);
}

#[test]
fn put_roundtrip_bytes() {
    let mut store = Objects::default();
    store
        .put(
            5,
            ObjectType::Opaque,
            Algorithm::Opaque(OpaqueAlg::X509Certificate),
            label("cert"),
            Capability::none(),
            Capability::none(),
            Domain::new(1),
            &[0xde, 0xad, 0xbe, 0xef],
        )
        .unwrap();
    let o = store.get(5, ObjectType::Opaque).unwrap();
    assert_eq!(o.object_info.origin, ObjectOrigin::Imported);
    assert_eq!(o.object_info.length, 4);
    assert_eq!(o.payload.data().as_slice(), &[0xde, 0xad, 0xbe, 0xef]);
    assert_eq!(
        o.payload.algorithm(),
        Algorithm::Opaque(OpaqueAlg::X509Certificate)
    );
}

#[test]
fn put_wrong_length_rejected() {
    let mut store = Objects::default();
    let r = store.put(
        6,
        ObjectType::SymmetricKey,
        Algorithm::Symmetric(SymmetricAlg::Aes128),
        label("short"),
        Capability::none(),
        Capability::none(),
        Domain::all(),
        &[1, 2, 3, 4, 5],
    );
    assert_eq!(
        r,
        Err(Error::InvalidPayloadLength(Algorithm::Symmetric(
            SymmetricAlg::Aes128
        )))
    );
    assert!(store.get(6, ObjectType::SymmetricKey).is_none());
}

#[test]
fn label_too_long_rejected() {
    match ObjectLabel::new(vec![0u8; 41]) {
        Err(e) => assert_eq!(e, Error::LabelTooLong),
        Ok(_) => panic!("a 41-byte label must be rejected"),
    }
    assert!(ObjectLabel::new(vec![0u8; 40]).is_ok());
}

#[test]
fn capability_set_operations() {
    let signing = Capability::new(0x1);
    let exporting = Capability::new(EXPORTABLE_UNDER_WRAP);
    let both = signing.union(&exporting);
    assert_eq!(both.bits, 0x1 | EXPORTABLE_UNDER_WRAP);
    assert!(both.contains(EXPORTABLE_UNDER_WRAP));
    assert!(both.contains(0x1));
    assert!(!signing.contains(EXPORTABLE_UNDER_WRAP));
    assert!(Capability::all().contains(EXPORTABLE_UNDER_WRAP));
    assert!(Domain::all().contains(0x8000));
    assert!(!Domain::new(0x0001).contains(0x0002));
}

#[test]
fn remove_returns_object_and_deletes() {
    let mut store = Objects::default();
    store
        .put(
            9,
            ObjectType::Opaque,
            Algorithm::Opaque(OpaqueAlg::Data),
            label("gone"),
            Capability::none(),
            Capability::none(),
            Domain::all(),
            &[42],
        )
        .unwrap();
    let removed = store.remove(9, ObjectType::Opaque).unwrap();
    assert_eq!(removed.payload.data().as_slice(), &[42]);
    assert!(store.get(9, ObjectType::Opaque).is_none());
    assert!(store.remove(9, ObjectType::Opaque).is_none());
}

#[test]
fn iter_ascending_order() {
    let mut store = Objects::default();
    for id in [30u16, 10, 20] {
        store
            .generate(
                id,
                ObjectType::SymmetricKey,
                Algorithm::Symmetric(SymmetricAlg::Aes128),
                label("k"),
                Capability::none(),
                Capability::none(),
                Domain::all(),
            )
            .unwrap();
    }
    // Same id as an existing entry, different type: ordered by type tag.
    store
        .generate(
            10,
            ObjectType::Opaque,
            Algorithm::Opaque(OpaqueAlg::Data),
            label("o"),
            Capability::none(),
            Capability::none(),
            Domain::all(),
        )
        .unwrap();
    let handles: Vec<(u16, ObjectType)> = store
        .iter()
        .iter()
        .map(|(h, _)| (h.object_id, h.object_type))
        .collect();
    assert_eq!(
        handles,
        vec![
            (1, ObjectType::AuthenticationKey),
            (10, ObjectType::Opaque),
            (10, ObjectType::SymmetricKey),
            (20, ObjectType::SymmetricKey),
            (30, ObjectType::SymmetricKey),
        ]
    );
    // A repeated traversal is fresh and identical.
    let again: Vec<(u16, ObjectType)> = store
        .iter()
        .iter()
        .map(|(h, _)| (h.object_id, h.object_type))
        .collect();
    assert_eq!(handles, again);
}

#[test]
fn generate_wrap_key_lengths() {
    let mut store = Objects::default();
    store
        .generate(
            2,
            ObjectType::WrapKey,
            Algorithm::Wrap(WrapAlg::Aes128Ccm),
            label("w128"),
            Capability::all(),
            Capability::all(),
            Domain::all(),
        )
        .unwrap();
    store
        .generate(
            3,
            ObjectType::WrapKey,
            Algorithm::Wrap(WrapAlg::Aes256Ccm),
            label("w256"),
            Capability::all(),
            Capability::all(),
            Domain::all(),
        )
        .unwrap();
    assert_eq!(store.get(2, ObjectType::WrapKey).unwrap().object_info.length, 16);
    assert_eq!(store.get(3, ObjectType::WrapKey).unwrap().object_info.length, 32);
}
