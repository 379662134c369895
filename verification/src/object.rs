//! Object metadata: types, origins, handles, labels, and the metadata record.

use vstd::prelude::*;

use crate::algorithm::{spec_payload_len_ok, Algorithm};
use crate::capability::{Capability, Domain};
use crate::error::Error;
use crate::payload::{copy_bytes, Payload};

verus! {

/// Well-known id of the factory-default authentication key.
pub const DEFAULT_AUTHENTICATION_KEY_ID: u16 = 1;

/// Maximum byte length of an object label.
pub const MAX_LABEL_LEN: usize = 40;

/// The kind of a stored object.  Together with the object id it forms the
/// store's primary key.
#[derive(Clone, Copy, Debug, PartialEq, Eq, Structural)]
pub enum ObjectType {
    Opaque,
    AuthenticationKey,
    AsymmetricKey,
    WrapKey,
    HmacKey,
    Template,
    OtpAeadKey,
    SymmetricKey,
}

/// One-byte envelope tag of an object type; also its rank in handle order.
pub open spec fn spec_object_type_tag(t: ObjectType) -> u8 {
    match t {
        ObjectType::Opaque => 1,
        ObjectType::AuthenticationKey => 2,
        ObjectType::AsymmetricKey => 3,
        ObjectType::WrapKey => 4,
        ObjectType::HmacKey => 5,
        ObjectType::Template => 6,
        ObjectType::OtpAeadKey => 7,
        ObjectType::SymmetricKey => 8,
    }
}

/// The object type with the given envelope tag, if the tag is assigned.
pub open spec fn spec_object_type_from_tag(t: u8) -> Option<ObjectType> {
    if t == 1 {
        Some(ObjectType::Opaque)
    } else if t == 2 {
        Some(ObjectType::AuthenticationKey)
    } else if t == 3 {
        Some(ObjectType::AsymmetricKey)
    } else if t == 4 {
        Some(ObjectType::WrapKey)
    } else if t == 5 {
        Some(ObjectType::HmacKey)
    } else if t == 6 {
        Some(ObjectType::Template)
    } else if t == 7 {
        Some(ObjectType::OtpAeadKey)
    } else if t == 8 {
        Some(ObjectType::SymmetricKey)
    } else {
        None
    }
}

/// Tag assignment is injective: decoding the tag of `t` yields `t` again.
pub proof fn lemma_object_type_tag_round_trip(t: ObjectType)
    ensures
        spec_object_type_from_tag(spec_object_type_tag(t)) == Some(t),
{
}

impl ObjectType {
    /// Runtime counterpart of [`spec_object_type_tag`].
    pub fn tag(&self) -> (r: u8)
        ensures
            r == spec_object_type_tag(*self),
    {
        match self {
            ObjectType::Opaque => 1,
            ObjectType::AuthenticationKey => 2,
            ObjectType::AsymmetricKey => 3,
            ObjectType::WrapKey => 4,
            ObjectType::HmacKey => 5,
            ObjectType::Template => 6,
            ObjectType::OtpAeadKey => 7,
            ObjectType::SymmetricKey => 8,
        }
    }

    /// Runtime counterpart of [`spec_object_type_from_tag`].
    pub fn from_tag(t: u8) -> (r: Option<ObjectType>)
        ensures
            r == spec_object_type_from_tag(t),
    {
        if t == 1 {
            Some(ObjectType::Opaque)
        } else if t == 2 {
            Some(ObjectType::AuthenticationKey)
        } else if t == 3 {
            Some(ObjectType::AsymmetricKey)
        } else if t == 4 {
            Some(ObjectType::WrapKey)
        } else if t == 5 {
            Some(ObjectType::HmacKey)
        } else if t == 6 {
            Some(ObjectType::Template)
        } else if t == 7 {
            Some(ObjectType::OtpAeadKey)
        } else if t == 8 {
            Some(ObjectType::SymmetricKey)
        } else {
            None
        }
    }
}

/// Provenance of an object's key material.
#[derive(Clone, Copy, Debug, PartialEq, Eq, Structural)]
pub enum ObjectOrigin {
    /// Generated inside this device.
    Generated,
    /// Imported from outside.
    Imported,
    /// Generated here, then exported under wrap at least once.
    WrappedGenerated,
    /// Imported, then exported under wrap at least once.
    WrappedImported,
}

/// Origin promotion applied when an object crosses the export boundary.
/// Monotone: already-wrapped origins stay as they are.
pub open spec fn spec_promote_origin(o: ObjectOrigin) -> ObjectOrigin {
    match o {
        ObjectOrigin::Generated => ObjectOrigin::WrappedGenerated,
        ObjectOrigin::Imported => ObjectOrigin::WrappedImported,
        ObjectOrigin::WrappedGenerated => ObjectOrigin::WrappedGenerated,
        ObjectOrigin::WrappedImported => ObjectOrigin::WrappedImported,
    }
}

/// Law: origin promotion is idempotent.  An object already promoted by one
/// wrap keeps its origin unchanged under any further wrap.
pub proof fn lemma_promote_origin_idempotent(o: ObjectOrigin)
    ensures
        spec_promote_origin(spec_promote_origin(o)) == spec_promote_origin(o),
{
}

/// One-byte envelope tag of an origin.
pub open spec fn spec_origin_tag(o: ObjectOrigin) -> u8 {
    match o {
        ObjectOrigin::Generated => 1,
        ObjectOrigin::Imported => 2,
        ObjectOrigin::WrappedGenerated => 17,
        ObjectOrigin::WrappedImported => 18,
    }
}

/// The origin with the given envelope tag, if the tag is assigned.
pub open spec fn spec_origin_from_tag(t: u8) -> Option<ObjectOrigin> {
    if t == 1 {
        Some(ObjectOrigin::Generated)
    } else if t == 2 {
        Some(ObjectOrigin::Imported)
    } else if t == 17 {
        Some(ObjectOrigin::WrappedGenerated)
    } else if t == 18 {
        Some(ObjectOrigin::WrappedImported)
    } else {
        None
    }
}

/// Tag assignment is injective: decoding the tag of `o` yields `o` again.
pub proof fn lemma_origin_tag_round_trip(o: ObjectOrigin)
    ensures
        spec_origin_from_tag(spec_origin_tag(o)) == Some(o),
{
}

impl ObjectOrigin {
    /// Runtime counterpart of [`spec_promote_origin`].
    pub fn promote(&self) -> (r: ObjectOrigin)
        ensures
            r == spec_promote_origin(*self),
    {
        match self {
            ObjectOrigin::Generated => ObjectOrigin::WrappedGenerated,
            ObjectOrigin::Imported => ObjectOrigin::WrappedImported,
            ObjectOrigin::WrappedGenerated => ObjectOrigin::WrappedGenerated,
            ObjectOrigin::WrappedImported => ObjectOrigin::WrappedImported,
        }
    }

    /// Runtime counterpart of [`spec_origin_tag`].
    pub fn tag(&self) -> (r: u8)
        ensures
            r == spec_origin_tag(*self),
    {
        match self {
            ObjectOrigin::Generated => 1,
            ObjectOrigin::Imported => 2,
            ObjectOrigin::WrappedGenerated => 17,
            ObjectOrigin::WrappedImported => 18,
        }
    }

    /// Runtime counterpart of [`spec_origin_from_tag`].
    pub fn from_tag(t: u8) -> (r: Option<ObjectOrigin>)
        ensures
            r == spec_origin_from_tag(t),
    {
        if t == 1 {
            Some(ObjectOrigin::Generated)
        } else if t == 2 {
            Some(ObjectOrigin::Imported)
        } else if t == 17 {
            Some(ObjectOrigin::WrappedGenerated)
        } else if t == 18 {
            Some(ObjectOrigin::WrappedImported)
        } else {
            None
        }
    }
}

/// The store's primary key: object id plus object type.
#[derive(Clone, Copy, Debug, PartialEq, Eq, Structural)]
pub struct ObjectHandle {
    pub object_id: u16,
    pub object_type: ObjectType,
}

/// Total order on handles: ascending id, then ascending type tag.
pub open spec fn spec_handle_lt(a: ObjectHandle, b: ObjectHandle) -> bool {
    a.object_id < b.object_id || (a.object_id == b.object_id && spec_object_type_tag(
        a.object_type,
    ) < spec_object_type_tag(b.object_type))
}

/// The handle order is trichotomous: two handles are ordered one way, the
/// other way, or equal.
pub proof fn lemma_handle_order_total(a: ObjectHandle, b: ObjectHandle)
    ensures
        spec_handle_lt(a, b) || spec_handle_lt(b, a) || a == b,
        spec_handle_lt(a, b) ==> !spec_handle_lt(b, a) && a != b,
{
    lemma_object_type_tag_round_trip(a.object_type);
    lemma_object_type_tag_round_trip(b.object_type);
}

impl ObjectHandle {
    /// Build a handle from its parts.
    pub fn new(object_id: u16, object_type: ObjectType) -> (r: ObjectHandle)
        ensures
            r.object_id == object_id,
            r.object_type == object_type,
    {
        ObjectHandle { object_id, object_type }
    }

    /// Runtime counterpart of [`spec_handle_lt`].
    pub fn lt(&self, other: &ObjectHandle) -> (r: bool)
        ensures
            r == spec_handle_lt(*self, *other),
    {
        self.object_id < other.object_id || (self.object_id == other.object_id
            && self.object_type.tag() < other.object_type.tag())
    }

    /// Runtime equality of handles.
    pub fn same(&self, other: &ObjectHandle) -> (r: bool)
        ensures
            r == (*self == *other),
    {
        proof {
            lemma_object_type_tag_round_trip(self.object_type);
            lemma_object_type_tag_round_trip(other.object_type);
        }
        self.object_id == other.object_id && self.object_type.tag() == other.object_type.tag()
    }
}

/// A human-readable object label of at most [`MAX_LABEL_LEN`] bytes.
#[derive(Clone, Debug)]
pub struct ObjectLabel {
    pub bytes: Vec<u8>,
}

impl View for ObjectLabel {
    type V = Seq<u8>;

    open spec fn view(&self) -> Seq<u8> {
        self.bytes@
    }
}

impl ObjectLabel {
    /// Well-formedness: the label fits the fixed-size label field.
    pub open spec fn wf(self) -> bool {
        self@.len() <= MAX_LABEL_LEN
    }

    /// An empty label.
    pub fn empty() -> (r: ObjectLabel)
        ensures
            r@ == Seq::<u8>::empty(),
            r.wf(),
    {
        ObjectLabel { bytes: Vec::new() }
    }

    /// Build a label, rejecting bytes longer than the maximum.
    pub fn new(bytes: Vec<u8>) -> (r: Result<ObjectLabel, Error>)
        ensures
            bytes@.len() <= MAX_LABEL_LEN ==> (r matches Ok(l) && l@ == bytes@ && l.wf()),
            bytes@.len() > MAX_LABEL_LEN ==> r == Err::<ObjectLabel, Error>(Error::LabelTooLong),
    {
        if bytes.len() > MAX_LABEL_LEN {
            Err(Error::LabelTooLong)
        } else {
            Ok(ObjectLabel { bytes })
        }
    }

    /// Borrow the label bytes.
    pub fn as_bytes(&self) -> (r: &Vec<u8>)
        ensures
            r@ == self@,
    {
        &self.bytes
    }

    /// An exact copy of this label.
    pub fn duplicate(&self) -> (r: ObjectLabel)
        ensures
            r@ == self@,
    {
        ObjectLabel { bytes: copy_bytes(&self.bytes) }
    }
}

/// Mathematical model of a metadata record: the record with its label taken
/// as a byte sequence.
#[verifier::ext_equal]
pub ghost struct ObjectInfoV {
    pub object_id: u16,
    pub object_type: ObjectType,
    pub algorithm: Algorithm,
    pub capabilities: Capability,
    pub delegated_capabilities: Capability,
    pub domains: Domain,
    pub length: u16,
    pub sequence: u8,
    pub origin: ObjectOrigin,
    pub label: Seq<u8>,
}

impl ObjectInfoV {
    /// The handle this record is stored under.
    pub open spec fn handle(self) -> ObjectHandle {
        ObjectHandle { object_id: self.object_id, object_type: self.object_type }
    }

    /// Well-formedness of the model record.
    pub open spec fn wf(self) -> bool {
        self.label.len() <= MAX_LABEL_LEN
    }
}

/// Origin promotion lifted to a whole metadata record: every other field is
/// kept as it is.
pub open spec fn spec_promote_info(i: ObjectInfoV) -> ObjectInfoV {
    ObjectInfoV { origin: spec_promote_origin(i.origin), ..i }
}

/// The metadata record of one stored object.
#[derive(Clone, Debug)]
pub struct ObjectInfo {
    pub object_id: u16,
    pub object_type: ObjectType,
    pub algorithm: Algorithm,
    pub capabilities: Capability,
    pub delegated_capabilities: Capability,
    pub domains: Domain,
    pub length: u16,
    pub sequence: u8,
    pub origin: ObjectOrigin,
    pub label: ObjectLabel,
}

impl View for ObjectInfo {
    type V = ObjectInfoV;

    open spec fn view(&self) -> ObjectInfoV {
        ObjectInfoV {
            object_id: self.object_id,
            object_type: self.object_type,
            algorithm: self.algorithm,
            capabilities: self.capabilities,
            delegated_capabilities: self.delegated_capabilities,
            domains: self.domains,
            length: self.length,
            sequence: self.sequence,
            origin: self.origin,
            label: self.label@,
        }
    }
}

impl ObjectInfo {
    /// The handle this record is stored under.
    pub fn handle(&self) -> (r: ObjectHandle)
        ensures
            r == self@.handle(),
    {
        ObjectHandle { object_id: self.object_id, object_type: self.object_type }
    }

    /// An exact copy of this record.
    pub fn duplicate(&self) -> (r: ObjectInfo)
        ensures
            r@ == self@,
    {
        ObjectInfo {
            object_id: self.object_id,
            object_type: self.object_type,
            algorithm: self.algorithm,
            capabilities: self.capabilities,
            delegated_capabilities: self.delegated_capabilities,
            domains: self.domains,
            length: self.length,
            sequence: self.sequence,
            origin: self.origin,
            label: self.label.duplicate(),
        }
    }
}

/// Mathematical model of one stored object: its metadata record and its raw
/// payload bytes.
#[verifier::ext_equal]
pub ghost struct ObjectV {
    pub info: ObjectInfoV,
    pub data: Seq<u8>,
}

impl ObjectV {
    /// Well-formedness of the model object: consistent metadata and
    /// correctly sized payload bytes.
    pub open spec fn wf(self) -> bool {
        &&& self.info.wf()
        &&& self.info.length as nat == self.data.len()
        &&& spec_payload_len_ok(self.info.algorithm, self.data.len())
    }
}

/// One stored object: a metadata record paired with its payload.
#[derive(Clone, Debug)]
pub struct Object {
    pub object_info: ObjectInfo,
    pub payload: Payload,
}

impl View for Object {
    type V = ObjectV;

    open spec fn view(&self) -> ObjectV {
        ObjectV { info: self.object_info@, data: self.payload.spec_data() }
    }
}

impl Object {
    /// Well-formedness: the model is well formed and the payload's own
    /// algorithm agrees with the metadata record.
    pub open spec fn wf(self) -> bool {
        &&& self@.wf()
        &&& self.payload.spec_algorithm() == self.object_info@.algorithm
    }

    /// The handle this object is stored under.
    pub fn handle(&self) -> (r: ObjectHandle)
        ensures
            r == self@.info.handle(),
    {
        self.object_info.handle()
    }

    /// The algorithm of this object's payload.
    pub fn algorithm(&self) -> (r: Algorithm)
        ensures
            r == self@.info.algorithm,
    {
        self.object_info.algorithm
    }

    /// An exact copy of this object.
    pub fn duplicate(&self) -> (r: Object)
        ensures
            r@ == self@,
            r.payload.spec_algorithm() == self.payload.spec_algorithm(),
    {
        Object { object_info: self.object_info.duplicate(), payload: self.payload.duplicate() }
    }
}

} // verus!
