//! The wrapped-object envelope and its byte encoding.
//!
//! A `WrappedObject` is the transient plaintext exchanged by the wrap and
//! unwrap operations: one metadata record together with the object's raw
//! payload bytes.  It is encoded as a deterministic, self-describing record:
//!
//! ```text
//! offset  0..2   object id        (little endian)
//! offset  2      object type tag
//! offset  3      algorithm tag
//! offset  4..12  capabilities     (little endian)
//! offset 12..20  delegated capabilities
//! offset 20..22  domains
//! offset 22..24  payload length
//! offset 24      sequence
//! offset 25      origin tag
//! offset 26      label length
//! offset 27..    label bytes, then payload bytes
//! ```

use vstd::bytes::{
    lemma_auto_spec_u16_to_from_le_bytes, lemma_auto_spec_u64_to_from_le_bytes,
    spec_u16_from_le_bytes, spec_u16_to_le_bytes, spec_u64_from_le_bytes, spec_u64_to_le_bytes,
    u16_from_le_bytes, u16_to_le_bytes, u64_from_le_bytes, u64_to_le_bytes,
};
use vstd::prelude::*;
use vstd::slice::{slice_index_get, slice_subrange, slice_to_vec};

use crate::algorithm::{payload_len_ok, spec_payload_len_ok, Algorithm};
use crate::capability::{Capability, Domain};
use crate::object::{
    spec_object_type_from_tag, spec_object_type_tag, spec_origin_from_tag, spec_origin_tag,
    ObjectInfo, ObjectInfoV, ObjectLabel, ObjectOrigin, ObjectType, MAX_LABEL_LEN,
};

verus! {

/// Byte length of the fixed header that precedes label and payload bytes.
pub const ENVELOPE_HEADER_LEN: usize = 27;

/// Mathematical model of an envelope.
#[verifier::ext_equal]
pub ghost struct WrappedObjectV {
    pub info: ObjectInfoV,
    pub data: Seq<u8>,
}

impl WrappedObjectV {
    /// Well-formedness: consistent metadata and correctly sized payload.
    pub open spec fn wf(self) -> bool {
        &&& self.info.wf()
        &&& self.info.length as nat == self.data.len()
        &&& spec_payload_len_ok(self.info.algorithm, self.data.len())
    }
}

/// The transient plaintext envelope of one exported object.
#[derive(Clone, Debug)]
pub struct WrappedObject {
    pub object_info: ObjectInfo,
    pub data: Vec<u8>,
}

impl View for WrappedObject {
    type V = WrappedObjectV;

    open spec fn view(&self) -> WrappedObjectV {
        WrappedObjectV { info: self.object_info@, data: self.data@ }
    }
}

/// The encoding of an envelope: header, label bytes, payload bytes.
pub open spec fn spec_encode_envelope(e: WrappedObjectV) -> Seq<u8> {
    spec_u16_to_le_bytes(e.info.object_id) + seq![spec_object_type_tag(e.info.object_type)]
        + seq![crate::algorithm::spec_algorithm_tag(e.info.algorithm)] + spec_u64_to_le_bytes(
        e.info.capabilities.bits,
    ) + spec_u64_to_le_bytes(e.info.delegated_capabilities.bits) + spec_u16_to_le_bytes(
        e.info.domains.bits,
    ) + spec_u16_to_le_bytes(e.info.length) + seq![e.info.sequence] + seq![spec_origin_tag(
        e.info.origin,
    )] + seq![e.info.label.len() as u8] + e.info.label + e.data
}

/// The decoding of a byte sequence: `Some` exactly on well-formed encodings.
pub open spec fn spec_decode_envelope(b: Seq<u8>) -> Option<WrappedObjectV> {
    if b.len() < ENVELOPE_HEADER_LEN as int {
        None
    } else {
        match (
            spec_object_type_from_tag(b[2]),
            crate::algorithm::spec_algorithm_from_tag(b[3]),
            spec_origin_from_tag(b[25]),
        ) {
            (Some(object_type), Some(algorithm), Some(origin)) => {
                let label_len = b[26] as int;
                if label_len > MAX_LABEL_LEN as int {
                    None
                } else if b.len() < ENVELOPE_HEADER_LEN as int + label_len {
                    None
                } else {
                    let info = ObjectInfoV {
                        object_id: spec_u16_from_le_bytes(b.subrange(0, 2)),
                        object_type,
                        algorithm,
                        capabilities: Capability { bits: spec_u64_from_le_bytes(b.subrange(4, 12)) },
                        delegated_capabilities: Capability {
                            bits: spec_u64_from_le_bytes(b.subrange(12, 20)),
                        },
                        domains: Domain { bits: spec_u16_from_le_bytes(b.subrange(20, 22)) },
                        length: spec_u16_from_le_bytes(b.subrange(22, 24)),
                        sequence: b[24],
                        origin,
                        label: b.subrange(27, 27 + label_len),
                    };
                    let data = b.subrange(27 + label_len, b.len() as int);
                    if info.length as int == data.len() && spec_payload_len_ok(
                        info.algorithm,
                        data.len(),
                    ) {
                        Some(WrappedObjectV { info, data })
                    } else {
                        None
                    }
                }
            },
            _ => None,
        }
    }
}

/// Whatever decodes is well formed.
pub proof fn lemma_decode_wf(b: Seq<u8>)
    ensures
        spec_decode_envelope(b) matches Some(e) ==> e.wf(),
{
}

/// Law: the envelope codec round-trips.  Encoding any well-formed envelope
/// and decoding the bytes yields exactly the envelope again; in particular
/// the payload bytes come back byte-identical.
pub proof fn lemma_encode_decode_round_trip(e: WrappedObjectV)
    requires
        e.wf(),
    ensures
        spec_decode_envelope(spec_encode_envelope(e)) == Some(e),
{
    lemma_auto_spec_u16_to_from_le_bytes();
    lemma_auto_spec_u64_to_from_le_bytes();
    let b = spec_encode_envelope(e);
    let ll = e.info.label.len() as int;
    assert(b.len() == 27 + ll + e.data.len());
    assert(b.subrange(0, 2) =~= spec_u16_to_le_bytes(e.info.object_id));
    assert(b[2] == spec_object_type_tag(e.info.object_type));
    assert(b[3] == crate::algorithm::spec_algorithm_tag(e.info.algorithm));
    assert(b.subrange(4, 12) =~= spec_u64_to_le_bytes(e.info.capabilities.bits));
    assert(b.subrange(12, 20) =~= spec_u64_to_le_bytes(e.info.delegated_capabilities.bits));
    assert(b.subrange(20, 22) =~= spec_u16_to_le_bytes(e.info.domains.bits));
    assert(b.subrange(22, 24) =~= spec_u16_to_le_bytes(e.info.length));
    assert(b[24] == e.info.sequence);
    assert(b[25] == spec_origin_tag(e.info.origin));
    assert(b[26] == e.info.label.len() as u8);
    crate::object::lemma_object_type_tag_round_trip(e.info.object_type);
    crate::algorithm::lemma_algorithm_tag_round_trip(e.info.algorithm);
    crate::object::lemma_origin_tag_round_trip(e.info.origin);
    assert(b[26] as int == ll);
    assert(b.subrange(27, 27 + ll) =~= e.info.label);
    assert(b.subrange(27 + ll, b.len() as int) =~= e.data);
    let d = spec_decode_envelope(b);
    assert(d matches Some(dv) && dv.info =~= e.info && dv.data =~= e.data);
    assert(d == Some(e));
}

/// Encode an envelope to bytes.
pub fn encode_envelope(e: &WrappedObject) -> (r: Vec<u8>)
    requires
        e@.wf(),
    ensures
        r@ == spec_encode_envelope(e@),
        r@.len() == ENVELOPE_HEADER_LEN + e@.info.label.len() + e@.data.len(),
{
    proof {
        lemma_auto_spec_u16_to_from_le_bytes();
        lemma_auto_spec_u64_to_from_le_bytes();
    }
    let mut buf: Vec<u8> = Vec::new();
    let mut part = u16_to_le_bytes(e.object_info.object_id);
    buf.append(&mut part);
    buf.push(e.object_info.object_type.tag());
    buf.push(e.object_info.algorithm.tag());
    let mut part = u64_to_le_bytes(e.object_info.capabilities.bits);
    buf.append(&mut part);
    let mut part = u64_to_le_bytes(e.object_info.delegated_capabilities.bits);
    buf.append(&mut part);
    let mut part = u16_to_le_bytes(e.object_info.domains.bits);
    buf.append(&mut part);
    let mut part = u16_to_le_bytes(e.object_info.length);
    buf.append(&mut part);
    buf.push(e.object_info.sequence);
    buf.push(e.object_info.origin.tag());
    let label = e.object_info.label.as_bytes();
    assert(label@.len() <= MAX_LABEL_LEN);
    buf.push(label.len() as u8);
    let mut part = slice_to_vec(label.as_slice());
    buf.append(&mut part);
    let mut part = slice_to_vec(e.data.as_slice());
    buf.append(&mut part);
    assert(buf@ =~= spec_encode_envelope(e@));
    buf
}

/// Decode bytes to an envelope, rejecting every byte sequence that is not a
/// well-formed encoding.
pub fn decode_envelope(b: &[u8]) -> (r: Option<WrappedObject>)
    ensures
        spec_decode_envelope(b@) is None ==> r is None,
        spec_decode_envelope(b@) matches Some(ev) ==> (r matches Some(w) && w@ == ev),
{
    if b.len() < ENVELOPE_HEADER_LEN {
        return None;
    }
    let object_type = match ObjectType::from_tag(*slice_index_get(b, 2)) {
        Some(t) => t,
        None => {
            return None;
        },
    };
    let algorithm = match Algorithm::from_tag(*slice_index_get(b, 3)) {
        Some(a) => a,
        None => {
            return None;
        },
    };
    let origin = match ObjectOrigin::from_tag(*slice_index_get(b, 25)) {
        Some(o) => o,
        None => {
            return None;
        },
    };
    let label_len = *slice_index_get(b, 26) as usize;
    if label_len > MAX_LABEL_LEN {
        return None;
    }
    if b.len() < ENVELOPE_HEADER_LEN + label_len {
        return None;
    }
    let label_bytes = slice_to_vec(slice_subrange(b, 27, 27 + label_len));
    let label = match ObjectLabel::new(label_bytes) {
        Ok(l) => l,
        Err(_) => {
            proof {
                assert(false);
            }
            ObjectLabel::empty()
        },
    };
    let object_id = u16_from_le_bytes(slice_subrange(b, 0, 2));
    let capabilities = Capability::new(u64_from_le_bytes(slice_subrange(b, 4, 12)));
    let delegated_capabilities = Capability::new(u64_from_le_bytes(slice_subrange(b, 12, 20)));
    let domains = Domain::new(u16_from_le_bytes(slice_subrange(b, 20, 22)));
    let length = u16_from_le_bytes(slice_subrange(b, 22, 24));
    let sequence = *slice_index_get(b, 24);
    let data = slice_to_vec(slice_subrange(b, 27 + label_len, b.len()));
    if !(length as usize == data.len() && payload_len_ok(algorithm, data.len())) {
        return None;
    }
    let info = ObjectInfo {
        object_id,
        object_type,
        algorithm,
        capabilities,
        delegated_capabilities,
        domains,
        length,
        sequence,
        origin,
        label,
    };
    let w = WrappedObject { object_info: info, data };
    proof {
        let ev = spec_decode_envelope(b@).unwrap();
        assert(w@.info =~= ev.info);
        assert(w@ =~= ev);
    }
    Some(w)
}

} // verus!
