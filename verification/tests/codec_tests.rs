//! Envelope codec tests: round trip and rejection of malformed encodings.

use mockhsm::algorithm::{Algorithm, SymmetricAlg};
use mockhsm::capability::{Capability, Domain};
use mockhsm::codec::{decode_envelope, encode_envelope, WrappedObject};
use mockhsm::object::{ObjectInfo, ObjectLabel, ObjectOrigin, ObjectType};

fn sample_envelope() -> WrappedObject {
    WrappedObject {
        object_info: ObjectInfo {
            object_id: 0x1234,
            object_type: ObjectType::SymmetricKey,
            algorithm: Algorithm::Symmetric(SymmetricAlg::Aes128),
            capabilities: Capability::new(0x0102_0304_0506_0708),
            delegated_capabilities: Capability::new(0x1111_2222_3333_4444),
            domains: Domain::new(0xa5a5),
            length: 16,
            sequence: 1,
            origin: ObjectOrigin::WrappedImported,
            label: ObjectLabel::new(b"a label".to_vec()).unwrap(),
        },
        data: (0u8..16).collect(),
    }
}

#[test]
fn encode_decode_round_trip() {
    let e = sample_envelope();
    let bytes = encode_envelope(&e);
    assert_eq!(bytes.len(), 27 + 7 + 16);
    let d = decode_envelope(bytes.as_slice()).expect("round trip must decode");
    assert_eq!(d.object_info.object_id, 0x1234);
    assert_eq!(d.object_info.object_type, ObjectType::SymmetricKey);
    assert_eq!(d.object_info.algorithm, Algorithm::Symmetric(SymmetricAlg::Aes128));
    assert_eq!(d.object_info.capabilities.bits, 0x0102_0304_0506_0708);
    assert_eq!(d.object_info.delegated_capabilities.bits, 0x1111_2222_3333_4444);
    assert_eq!(d.object_info.domains.bits, 0xa5a5);
    assert_eq!(d.object_info.length, 16);
    assert_eq!(d.object_info.sequence, 1);
    assert_eq!(d.object_info.origin, ObjectOrigin::WrappedImported);
    assert_eq!(d.object_info.label.bytes, b"a label".to_vec());
    assert_eq!(d.data, (0u8..16).collect::<Vec<u8>>());
}

#[test]
fn decode_rejects_short_input() {
    assert!(decode_envelope(&[]).is_none());
    assert!(decode_envelope(&[0u8; 26]).is_none());
}

#[test]
fn decode_rejects_bad_tags() {
    let e = sample_envelope();
    let bytes = encode_envelope(&e);
    let mut bad_type = bytes.clone();
    bad_type[2] = 0; // no object type carries tag 0
    assert!(decode_envelope(bad_type.as_slice()).is_none());
    let mut bad_alg = bytes.clone();
    bad_alg[3] = 99; // unassigned algorithm tag
    assert!(decode_envelope(bad_alg.as_slice()).is_none());
    let mut bad_origin = bytes.clone();
    bad_origin[25] = 3; // unassigned origin tag
    assert!(decode_envelope(bad_origin.as_slice()).is_none());
}

#[test]
fn decode_rejects_inconsistent_length() {
    let e = sample_envelope();
    let mut bytes = encode_envelope(&e);
    bytes[22] = 15; // length field no longer matches the payload bytes
    assert!(decode_envelope(bytes.as_slice()).is_none());
    let mut wrong_size = encode_envelope(&e);
    wrong_size.pop(); // payload shorter than the declared length
    assert!(decode_envelope(wrong_size.as_slice()).is_none());
}

#[test]
fn decode_rejects_oversized_label_length() {
    let e = sample_envelope();
    let mut bytes = encode_envelope(&e);
    bytes[26] = 41; // label length above the 40-byte maximum
    assert!(decode_envelope(bytes.as_slice()).is_none());
}
