//! The object store: an ordered mapping from handle to object.
//!
//! The store owns every object of one simulated device.  It is modelled as
//! a `Map<ObjectHandle, ObjectV>`; the representation is a vector kept
//! strictly sorted in handle order, which makes handles unique and gives
//! iteration its ascending order.

use vstd::prelude::*;
use vstd::slice::{slice_subrange, slice_to_vec};

use crate::algorithm::{spec_generated_len, Algorithm, AuthenticationAlg, WrapAlg};
use crate::capability::{Capability, Domain, EXPORTABLE_UNDER_WRAP};
use crate::codec::{
    encode_envelope, spec_decode_envelope, spec_encode_envelope, WrappedObject, WrappedObjectV,
};
use crate::error::Error;
use crate::object::{
    lemma_handle_order_total, spec_handle_lt, spec_promote_info, Object, ObjectHandle, ObjectInfo,
    ObjectInfoV, ObjectLabel, ObjectOrigin, ObjectType, ObjectV, DEFAULT_AUTHENTICATION_KEY_ID,
};
use crate::payload::{copy_bytes, Payload};
use crate::sealing::{
    aead_open_128, aead_open_256, aead_seal_128, aead_seal_256, seal_of, MAX_SEAL_LEN,
    WRAPPED_DATA_MAC_SIZE,
};

verus! {

/// Byte length of the nonce handed to the AEAD cipher: the first 12 bytes
/// of the caller-supplied wrap nonce.
pub const DERIVED_NONCE_LEN: usize = 12;

/// A caller-supplied wrap nonce.  The protocol derives the cipher nonce
/// from its first 12 bytes, so fewer than 12 bytes are rejected.
#[derive(Clone, Debug)]
pub struct WrapNonce {
    pub bytes: Vec<u8>,
}

impl View for WrapNonce {
    type V = Seq<u8>;

    open spec fn view(&self) -> Seq<u8> {
        self.bytes@
    }
}

impl WrapNonce {
    /// Build a nonce from raw bytes.
    pub fn new(bytes: Vec<u8>) -> (r: WrapNonce)
        ensures
            r@ == bytes@,
    {
        WrapNonce { bytes }
    }
}

/// The first 12 bytes of a caller-supplied nonce.
pub open spec fn spec_nonce12(n: Seq<u8>) -> Seq<u8> {
    n.subrange(0, DERIVED_NONCE_LEN as int)
}

fn nonce_prefix(n: &WrapNonce) -> (r: Vec<u8>)
    requires
        n@.len() >= DERIVED_NONCE_LEN,
    ensures
        r@ == spec_nonce12(n@),
        r@.len() == DERIVED_NONCE_LEN,
{
    slice_to_vec(slice_subrange(n.bytes.as_slice(), 0, DERIVED_NONCE_LEN))
}

/// Can the store seal with a wrap key declaring this algorithm?
pub open spec fn spec_supported_wrap_alg(a: Algorithm) -> bool {
    a == Algorithm::Wrap(WrapAlg::Aes128Ccm) || a == Algorithm::Wrap(WrapAlg::Aes256Ccm)
}

/// The envelope that wrapping an object seals: the object's metadata with
/// its origin promoted, and its raw payload bytes.
pub open spec fn spec_wrap_envelope(o: ObjectV) -> WrappedObjectV {
    WrappedObjectV { info: spec_promote_info(o.info), data: o.data }
}

/// The map denoted by a sequence of objects, each stored under its handle.
pub open spec fn spec_entries_map(s: Seq<Object>) -> Map<ObjectHandle, ObjectV>
    decreases s.len(),
{
    if s.len() == 0 {
        Map::empty()
    } else {
        spec_entries_map(s.drop_last()).insert(s.last()@.info.handle(), s.last()@)
    }
}

/// No two entries share a handle.
pub open spec fn spec_entries_distinct(s: Seq<Object>) -> bool {
    forall|i: int, j: int|
        0 <= i < s.len() && 0 <= j < s.len() && i != j ==> s[i]@.info.handle()
            != s[j]@.info.handle()
}

/// Entries are strictly ascending in handle order.
pub open spec fn spec_entries_sorted(s: Seq<Object>) -> bool {
    forall|i: int, j: int|
        0 <= i < j < s.len() ==> spec_handle_lt(s[i]@.info.handle(), s[j]@.info.handle())
}

/// A strictly ascending sequence of entries never repeats a handle.
pub proof fn lemma_sorted_entries_distinct(s: Seq<Object>)
    requires
        spec_entries_sorted(s),
    ensures
        spec_entries_distinct(s),
{
    assert forall|i: int, j: int|
        0 <= i < s.len() && 0 <= j < s.len() && i != j implies s[i]@.info.handle()
        != s[j]@.info.handle() by {
        if i < j {
            lemma_handle_order_total(s[i]@.info.handle(), s[j]@.info.handle());
        } else {
            lemma_handle_order_total(s[j]@.info.handle(), s[i]@.info.handle());
        }
    }
}

/// What the entries map holds: a key for each entry's handle, mapped to
/// that entry.
pub proof fn lemma_entries_map_characterize(s: Seq<Object>)
    requires
        spec_entries_distinct(s),
    ensures
        forall|h: ObjectHandle|
            #[trigger] spec_entries_map(s).contains_key(h) <==> exists|i: int|
                0 <= i < s.len() && #[trigger] s[i]@.info.handle() == h,
        forall|i: int|
            0 <= i < s.len() ==> spec_entries_map(s)[#[trigger] s[i]@.info.handle()] == s[i]@,
    decreases s.len(),
{
    if s.len() > 0 {
        let t = s.drop_last();
        assert(spec_entries_distinct(t)) by {
            assert(forall|i: int| 0 <= i < t.len() ==> t[i] == s[i]);
        }
        lemma_entries_map_characterize(t);
        assert forall|h: ObjectHandle| #[trigger]
            spec_entries_map(s).contains_key(h) implies exists|i: int|
            0 <= i < s.len() && #[trigger] s[i]@.info.handle() == h by {
            if h == s.last()@.info.handle() {
                assert(s[s.len() - 1]@.info.handle() == h);
            } else {
                assert(spec_entries_map(t).contains_key(h));
                let i = choose|i: int| 0 <= i < t.len() && #[trigger] t[i]@.info.handle() == h;
                assert(t[i] == s[i]);
                assert(s[i]@.info.handle() == h);
            }
        }
        assert forall|h: ObjectHandle|
            (exists|i: int|
                0 <= i < s.len() && #[trigger] s[i]@.info.handle() == h) implies #[trigger]
        spec_entries_map(s).contains_key(h) by {
            let i = choose|i: int| 0 <= i < s.len() && #[trigger] s[i]@.info.handle() == h;
            if i < s.len() - 1 {
                assert(t[i]@.info.handle() == h);
            }
        }
        assert forall|i: int| 0 <= i < s.len() implies spec_entries_map(s)[#[trigger] s[
            i
        ]@.info.handle()] == s[i]@ by {
            if i < s.len() - 1 {
                assert(t[i] == s[i]);
                assert(s[i]@.info.handle() != s.last()@.info.handle());
            }
        }
    }
}

/// The entries map has exactly one key per entry.
pub proof fn lemma_entries_map_len(s: Seq<Object>)
    requires
        spec_entries_distinct(s),
    ensures
        spec_entries_map(s).dom().finite(),
        spec_entries_map(s).dom().len() == s.len(),
    decreases s.len(),
{
    if s.len() == 0 {
    } else {
        let t = s.drop_last();
        assert(spec_entries_distinct(t)) by {
            assert(forall|i: int| 0 <= i < t.len() ==> t[i] == s[i]);
        }
        lemma_entries_map_len(t);
        lemma_entries_map_characterize(t);
        assert(!spec_entries_map(t).contains_key(s.last()@.info.handle()));
    }
}

/// Inserting an entry under a fresh handle adds exactly one binding to the
/// entries map.
proof fn lemma_entries_map_insert(s: Seq<Object>, k: int, o: Object)
    requires
        0 <= k <= s.len(),
        spec_entries_distinct(s),
        forall|j: int|
            0 <= j < s.len() ==> (#[trigger] s[j])@.info.handle() != o@.info.handle(),
    ensures
        spec_entries_map(s.insert(k, o)) == spec_entries_map(s).insert(o@.info.handle(), o@),
{
    let t = s.insert(k, o);
    let h = o@.info.handle();
    let ms = spec_entries_map(s);
    let mt = spec_entries_map(t);
    s.insert_ensures(k, o);
    assert(spec_entries_distinct(t)) by {
        assert forall|i: int, j: int|
            0 <= i < t.len() && 0 <= j < t.len() && i != j implies t[i]@.info.handle()
            != t[j]@.info.handle() by {
            let a = if i < k { s[i]@.info.handle() } else if i == k { h } else {
                s[i - 1]@.info.handle()
            };
            let b = if j < k { s[j]@.info.handle() } else if j == k { h } else {
                s[j - 1]@.info.handle()
            };
            assert(t[i]@.info.handle() == a);
            assert(t[j]@.info.handle() == b);
        }
    }
    lemma_entries_map_characterize(s);
    lemma_entries_map_characterize(t);
    assert forall|h2: ObjectHandle| #[trigger] mt.contains_key(h2) implies ms.insert(
        h,
        o@,
    ).contains_key(h2) && mt[h2] == ms.insert(h, o@)[h2] by {
        let i = choose|i: int| 0 <= i < t.len() && #[trigger] t[i]@.info.handle() == h2;
        assert(mt[h2] == t[i]@);
        if h2 == h {
            assert(t[k] == o);
            if i != k {
                assert(t[i]@.info.handle() != t[k]@.info.handle());
            }
            assert(t[i]@ == o@);
        } else {
            if i < k {
                assert(t[i] == s[i]);
                assert(s[i]@.info.handle() == h2);
                assert(ms[s[i]@.info.handle()] == s[i]@);
            } else {
                assert(i != k);
                assert(t[i] == s[i - 1]);
                assert(s[i - 1]@.info.handle() == h2);
                assert(ms[s[i - 1]@.info.handle()] == s[i - 1]@);
            }
        }
    }
    assert forall|h2: ObjectHandle| #[trigger]
        ms.insert(h, o@).contains_key(h2) implies mt.contains_key(h2) by {
        if h2 == h {
            assert(t[k] == o);
            assert(t[k]@.info.handle() == h2);
        } else {
            assert(ms.contains_key(h2));
            let i = choose|i: int| 0 <= i < s.len() && #[trigger] s[i]@.info.handle() == h2;
            if i < k {
                assert(t[i] == s[i]);
                assert(t[i]@.info.handle() == h2);
            } else {
                assert(t[i + 1] == s[i]);
                assert(t[i + 1]@.info.handle() == h2);
            }
        }
    }
    assert(mt =~= ms.insert(h, o@));
}

/// Removing the entry at one position removes exactly its binding from the
/// entries map.
proof fn lemma_entries_map_remove(s: Seq<Object>, k: int)
    requires
        0 <= k < s.len(),
        spec_entries_distinct(s),
    ensures
        spec_entries_map(s.remove(k)) == spec_entries_map(s).remove(s[k]@.info.handle()),
{
    let t = s.remove(k);
    let h = s[k]@.info.handle();
    let ms = spec_entries_map(s);
    let mt = spec_entries_map(t);
    s.remove_ensures(k);
    assert(spec_entries_distinct(t)) by {
        assert forall|i: int, j: int|
            0 <= i < t.len() && 0 <= j < t.len() && i != j implies t[i]@.info.handle()
            != t[j]@.info.handle() by {
            let a = if i < k { s[i]@.info.handle() } else { s[i + 1]@.info.handle() };
            let b = if j < k { s[j]@.info.handle() } else { s[j + 1]@.info.handle() };
            assert(t[i]@.info.handle() == a);
            assert(t[j]@.info.handle() == b);
        }
    }
    lemma_entries_map_characterize(s);
    lemma_entries_map_characterize(t);
    assert forall|h2: ObjectHandle| #[trigger] mt.contains_key(h2) implies ms.remove(
        h,
    ).contains_key(h2) && mt[h2] == ms.remove(h)[h2] by {
        let i = choose|i: int| 0 <= i < t.len() && #[trigger] t[i]@.info.handle() == h2;
        assert(mt[h2] == t[i]@);
        if i < k {
            assert(t[i] == s[i]);
            assert(s[i]@.info.handle() == h2);
            assert(h2 != h);
            assert(ms[s[i]@.info.handle()] == s[i]@);
        } else {
            assert(t[i] == s[i + 1]);
            assert(s[i + 1]@.info.handle() == h2);
            assert(h2 != h);
            assert(ms[s[i + 1]@.info.handle()] == s[i + 1]@);
        }
    }
    assert forall|h2: ObjectHandle| #[trigger]
        ms.remove(h).contains_key(h2) implies mt.contains_key(h2) by {
        assert(ms.contains_key(h2) && h2 != h);
        let i = choose|i: int| 0 <= i < s.len() && #[trigger] s[i]@.info.handle() == h2;
        assert(i != k);
        if i < k {
            assert(t[i] == s[i]);
            assert(t[i]@.info.handle() == h2);
        } else {
            assert(t[i - 1] == s[i]);
            assert(t[i - 1]@.info.handle() == h2);
        }
    }
    assert(mt =~= ms.remove(h));
}

/// The object store of one simulated device.
#[derive(Debug)]
pub struct Objects {
    entries: Vec<Object>,
}

impl View for Objects {
    type V = Map<ObjectHandle, ObjectV>;

    closed spec fn view(&self) -> Map<ObjectHandle, ObjectV> {
        spec_entries_map(self.entries@)
    }
}

impl Objects {
    /// Validity of the representation: well-formed objects in strictly
    /// ascending handle order.
    pub closed spec fn wf(&self) -> bool {
        &&& forall|i: int| 0 <= i < self.entries@.len() ==> (#[trigger] self.entries@[i]).wf()
        &&& spec_entries_sorted(self.entries@)
    }

    /// Every object a well-formed store holds is well formed and sits under
    /// its own handle.
    pub proof fn lemma_wf_objects(&self)
        requires
            self.wf(),
        ensures
            forall|h: ObjectHandle| #[trigger]
                self@.contains_key(h) ==> self@[h].wf() && self@[h].info.handle() == h,
    {
        lemma_sorted_entries_distinct(self.entries@);
        lemma_entries_map_characterize(self.entries@);
        assert forall|h: ObjectHandle| #[trigger] self@.contains_key(h) implies self@[h].wf()
            && self@[h].info.handle() == h by {
            let i = choose|i: int|
                0 <= i < self.entries@.len() && #[trigger] self.entries@[i]@.info.handle() == h;
            assert(self.entries@[i].wf());
        }
    }

    /// Index of the entry stored under `h`, if any.
    fn find_index(&self, h: &ObjectHandle) -> (r: Option<usize>)
        ensures
            match r {
                Some(i) => i < self.entries@.len() && self.entries@[i as int]@.info.handle() == *h,
                None => forall|j: int|
                    0 <= j < self.entries@.len() ==> (#[trigger] self.entries@[j])@.info.handle()
                        != *h,
            },
    {
        let n = self.entries.len();
        let mut i: usize = 0;
        while i < n
            invariant
                n == self.entries@.len(),
                i <= n,
                forall|j: int|
                    0 <= j < i ==> (#[trigger] self.entries@[j])@.info.handle() != *h,
            decreases n - i,
        {
            if self.entries[i].handle().same(h) {
                return Some(i);
            }
            i = i + 1;
        }
        None
    }

    /// Look an object up by id and type.  Pure: no side effects, never
    /// fails; absence is `None`.
    pub fn get(&self, object_id: u16, object_type: ObjectType) -> (r: Option<&Object>)
        requires
            self.wf(),
        ensures
            ({
                let h = ObjectHandle { object_id, object_type };
                match r {
                    Some(o) => self@.contains_key(h) && o@ == self@[h] && o.wf()
                        && o@.info.handle() == h,
                    None => !self@.contains_key(h),
                }
            }),
    {
        let h = ObjectHandle::new(object_id, object_type);
        proof {
            lemma_sorted_entries_distinct(self.entries@);
            lemma_entries_map_characterize(self.entries@);
        }
        match self.find_index(&h) {
            Some(i) => Some(&self.entries[i]),
            None => None,
        }
    }

    /// Insert `o` under its own handle.  The uniqueness contract: an insert
    /// over an occupied handle is refused with the duplicate-handle error
    /// and leaves the store exactly as it was.
    fn insert_object(&mut self, o: Object) -> (r: Result<(), Error>)
        requires
            old(self).wf(),
            o.wf(),
        ensures
            final(self).wf(),
            ({
                let h = o@.info.handle();
                match r {
                    Ok(_) => !old(self)@.contains_key(h) && final(self)@ == old(self)@.insert(
                        h,
                        o@,
                    ),
                    Err(e) => e == Error::AlreadyExists(h.object_id, h.object_type) && old(
                        self,
                    )@.contains_key(h) && final(self)@ == old(self)@,
                }
            }),
    {
        let ghost s = self.entries@;
        let h = o.handle();
        let n = self.entries.len();
        let mut i: usize = 0;
        while i < n && self.entries[i].handle().lt(&h)
            invariant
                self == old(self),
                n == self.entries@.len(),
                i <= n,
                h == o@.info.handle(),
                forall|j: int|
                    0 <= j < i ==> spec_handle_lt(
                        (#[trigger] self.entries@[j])@.info.handle(),
                        o@.info.handle(),
                    ),
            decreases n - i,
        {
            i = i + 1;
        }
        proof {
            lemma_sorted_entries_distinct(s);
            lemma_entries_map_characterize(s);
        }
        if i < n && self.entries[i].handle().same(&h) {
            return Err(Error::AlreadyExists(h.object_id, h.object_type));
        }
        proof {
            assert(spec_entries_sorted(s));
            assert forall|j: int| i <= j < n implies spec_handle_lt(
                o@.info.handle(),
                (#[trigger] s[j])@.info.handle(),
            ) by {
                let hi = s[i as int]@.info.handle();
                lemma_handle_order_total(hi, o@.info.handle());
                assert(spec_handle_lt(o@.info.handle(), hi));
                if j > i {
                    assert(spec_handle_lt(hi, s[j]@.info.handle()));
                }
            }
            assert forall|j: int| 0 <= j < n implies (#[trigger] s[j])@.info.handle()
                != o@.info.handle() by {
                if j < i {
                    lemma_handle_order_total(s[j]@.info.handle(), o@.info.handle());
                } else {
                    lemma_handle_order_total(o@.info.handle(), s[j]@.info.handle());
                }
            }
        }
        self.entries.insert(i, o);
        proof {
            let t = self.entries@;
            s.insert_ensures(i as int, o);
            assert forall|a: int, b: int| 0 <= a < b < t.len() implies spec_handle_lt(
                (#[trigger] t[a])@.info.handle(),
                (#[trigger] t[b])@.info.handle(),
            ) by {
                let k = i as int;
                let ha = if a < k { s[a]@.info.handle() } else if a == k { o@.info.handle() } else {
                    s[a - 1]@.info.handle()
                };
                let hb = if b < k { s[b]@.info.handle() } else if b == k { o@.info.handle() } else {
                    s[b - 1]@.info.handle()
                };
                assert(t[a]@.info.handle() == ha);
                assert(t[b]@.info.handle() == hb);
            }
            assert(forall|j: int| 0 <= j < t.len() ==> (#[trigger] t[j]).wf());
            lemma_entries_map_insert(s, i as int, o);
        }
        Ok(())
    }

    /// Generate a new object: deterministic key material of the algorithm's
    /// length, stored under the derived handle with origin `Generated` and
    /// sequence 1.  An occupied handle is a recoverable error.
    pub fn generate(
        &mut self,
        object_id: u16,
        object_type: ObjectType,
        algorithm: Algorithm,
        label: ObjectLabel,
        capabilities: Capability,
        delegated_capabilities: Capability,
        domains: Domain,
    ) -> (r: Result<(), Error>)
        requires
            old(self).wf(),
            label.wf(),
        ensures
            final(self).wf(),
            ({
                let h = ObjectHandle { object_id, object_type };
                let obj = ObjectV {
                    info: ObjectInfoV {
                        object_id,
                        object_type,
                        algorithm,
                        capabilities,
                        delegated_capabilities,
                        domains,
                        length: spec_generated_len(algorithm) as u16,
                        sequence: 1,
                        origin: ObjectOrigin::Generated,
                        label: label@,
                    },
                    data: Seq::new(spec_generated_len(algorithm), |i: int| 0u8),
                };
                match r {
                    Ok(_) => !old(self)@.contains_key(h) && final(self)@ == old(self)@.insert(
                        h,
                        obj,
                    ),
                    Err(e) => e == Error::AlreadyExists(object_id, object_type) && old(
                        self,
                    )@.contains_key(h) && final(self)@ == old(self)@,
                }
            }),
    {
        let payload = Payload::generate(algorithm);
        let length = payload.len();
        let object_info = ObjectInfo {
            object_id,
            object_type,
            algorithm,
            capabilities,
            delegated_capabilities,
            domains,
            length,
            sequence: 1,
            origin: ObjectOrigin::Generated,
            label,
        };
        let object = Object { object_info, payload };
        assert(object.wf());
        self.insert_object(object)
    }

    /// Import an object from caller-supplied bytes, validated and sized for
    /// the algorithm, stored with origin `Imported` and sequence 1.  An
    /// occupied handle is a recoverable error.
    pub fn put(
        &mut self,
        object_id: u16,
        object_type: ObjectType,
        algorithm: Algorithm,
        label: ObjectLabel,
        capabilities: Capability,
        delegated_capabilities: Capability,
        domains: Domain,
        data: &[u8],
    ) -> (r: Result<(), Error>)
        requires
            old(self).wf(),
            label.wf(),
        ensures
            final(self).wf(),
            ({
                let h = ObjectHandle { object_id, object_type };
                let obj = ObjectV {
                    info: ObjectInfoV {
                        object_id,
                        object_type,
                        algorithm,
                        capabilities,
                        delegated_capabilities,
                        domains,
                        length: data@.len() as u16,
                        sequence: 1,
                        origin: ObjectOrigin::Imported,
                        label: label@,
                    },
                    data: data@,
                };
                match r {
                    Ok(_) => crate::algorithm::spec_payload_len_ok(algorithm, data@.len()) && !old(
                        self,
                    )@.contains_key(h) && final(self)@ == old(self)@.insert(h, obj),
                    Err(e) => final(self)@ == old(self)@ && (if !crate::algorithm::spec_payload_len_ok(
                        algorithm,
                        data@.len(),
                    ) {
                        e == Error::InvalidPayloadLength(algorithm)
                    } else {
                        e == Error::AlreadyExists(object_id, object_type) && old(
                            self,
                        )@.contains_key(h)
                    }),
                }
            }),
    {
        let payload = match Payload::new(algorithm, data) {
            Ok(p) => p,
            Err(e) => {
                return Err(e);
            },
        };
        let length = payload.len();
        proof {
            assert(data@.len() <= 0xffff) by {
                match algorithm {
                    Algorithm::Auth(_) => {},
                    Algorithm::Wrap(_) => {},
                    Algorithm::Symmetric(_) => {},
                    Algorithm::Opaque(_) => {},
                }
            }
            assert(length == data@.len() as u16);
        }
        let object_info = ObjectInfo {
            object_id,
            object_type,
            algorithm,
            capabilities,
            delegated_capabilities,
            domains,
            length,
            sequence: 1,
            origin: ObjectOrigin::Imported,
            label,
        };
        let object = Object { object_info, payload };
        assert(object.wf());
        proof {
            let obj = ObjectV {
                info: ObjectInfoV {
                    object_id,
                    object_type,
                    algorithm,
                    capabilities,
                    delegated_capabilities,
                    domains,
                    length: data@.len() as u16,
                    sequence: 1,
                    origin: ObjectOrigin::Imported,
                    label: object.object_info.label@,
                },
                data: data@,
            };
            assert(object@ =~= obj);
        }
        self.insert_object(object)
    }

    /// Delete and return the object under the handle, if present; absence
    /// is `None`, not an error.
    pub fn remove(&mut self, object_id: u16, object_type: ObjectType) -> (r: Option<Object>)
        requires
            old(self).wf(),
        ensures
            final(self).wf(),
            ({
                let h = ObjectHandle { object_id, object_type };
                match r {
                    Some(o) => old(self)@.contains_key(h) && o@ == old(self)@[h] && o.wf()
                        && final(self)@ == old(self)@.remove(h),
                    None => !old(self)@.contains_key(h) && final(self)@ == old(self)@,
                }
            }),
    {
        let ghost s = self.entries@;
        let h = ObjectHandle::new(object_id, object_type);
        proof {
            lemma_sorted_entries_distinct(s);
            lemma_entries_map_characterize(s);
        }
        match self.find_index(&h) {
            None => None,
            Some(i) => {
                let o = self.entries.remove(i);
                proof {
                    let t = self.entries@;
                    s.remove_ensures(i as int);
                    assert forall|a: int, b: int| 0 <= a < b < t.len() implies spec_handle_lt(
                        (#[trigger] t[a])@.info.handle(),
                        (#[trigger] t[b])@.info.handle(),
                    ) by {
                        let k = i as int;
                        let ha = if a < k { s[a]@.info.handle() } else { s[a + 1]@.info.handle() };
                        let hb = if b < k { s[b]@.info.handle() } else { s[b + 1]@.info.handle() };
                        assert(t[a]@.info.handle() == ha);
                        assert(t[b]@.info.handle() == hb);
                    }
                    assert(forall|j: int| 0 <= j < t.len() ==> (#[trigger] t[j]).wf());
                    lemma_entries_map_remove(s, i as int);
                }
                Some(o)
            },
        }
    }

    /// List the stored objects as `(handle, object)` pairs in ascending
    /// handle order: a fresh, finite, read-only snapshot of current state.
    pub fn iter(&self) -> (r: Vec<(ObjectHandle, Object)>)
        requires
            self.wf(),
        ensures
            self@.dom().finite(),
            r@.len() == self@.dom().len(),
            forall|i: int|
                0 <= i < r@.len() ==> self@.contains_key(#[trigger] r@[i].0) && r@[i].1@
                    == self@[r@[i].0] && r@[i].1@.info.handle() == r@[i].0,
            forall|i: int, j: int| 0 <= i < j < r@.len() ==> spec_handle_lt(r@[i].0, r@[j].0),
            forall|h: ObjectHandle| #[trigger]
                self@.contains_key(h) ==> exists|i: int| 0 <= i < r@.len() && r@[i].0 == h,
    {
        proof {
            lemma_sorted_entries_distinct(self.entries@);
            lemma_entries_map_characterize(self.entries@);
            lemma_entries_map_len(self.entries@);
        }
        let n = self.entries.len();
        let mut r: Vec<(ObjectHandle, Object)> = Vec::new();
        let mut i: usize = 0;
        while i < n
            invariant
                n == self.entries@.len(),
                i <= n,
                r@.len() == i,
                forall|j: int|
                    0 <= j < i ==> (#[trigger] r@[j]).0 == self.entries@[j]@.info.handle()
                        && r@[j].1@ == self.entries@[j]@,
            decreases n - i,
        {
            let o = self.entries[i].duplicate();
            let hi = o.handle();
            r.push((hi, o));
            i = i + 1;
        }
        proof {
            assert forall|h: ObjectHandle| #[trigger] self@.contains_key(h) implies exists|i: int|
                0 <= i < r@.len() && r@[i].0 == h by {
                let i = choose|i: int|
                    0 <= i < self.entries@.len() && #[trigger] self.entries@[i]@.info.handle()
                        == h;
                assert(r@[i].0 == h);
            }
        }
        r
    }

    /// Export an object as ciphertext.  The target's metadata, with its
    /// origin promoted once, and its payload bytes are encoded as an
    /// envelope and sealed under the named wrap key with the first 12 bytes
    /// of the caller's nonce.  Fails, in this order, when the wrap key is
    /// absent, when it declares an algorithm outside the supported set
    /// (before any cryptographic work), when the target is absent, when the
    /// target lacks the export-under-wrap capability (never producing
    /// ciphertext), and when the nonce is shorter than 12 bytes.
    /// Non-destructive: the store is never changed, and the stored
    /// original keeps its unpromoted origin.
    pub fn wrap(
        &mut self,
        wrap_key_id: u16,
        object_id: u16,
        object_type: ObjectType,
        wrap_nonce: &WrapNonce,
    ) -> (r: Result<Vec<u8>, Error>)
        requires
            old(self).wf(),
        ensures
            final(self).wf(),
            final(self)@ == old(self)@,
            ({
                let m = old(self)@;
                let hwk = ObjectHandle {
                    object_id: wrap_key_id,
                    object_type: ObjectType::WrapKey,
                };
                let ht = ObjectHandle { object_id, object_type };
                &&& !m.contains_key(hwk) ==> r == Err::<Vec<u8>, Error>(
                    Error::WrapKeyNotFound(wrap_key_id),
                )
                &&& m.contains_key(hwk) && !spec_supported_wrap_alg(m[hwk].info.algorithm) ==> r
                    == Err::<Vec<u8>, Error>(Error::UnsupportedWrapAlgorithm(m[hwk].info.algorithm))
                &&& m.contains_key(hwk) && spec_supported_wrap_alg(m[hwk].info.algorithm)
                    && !m.contains_key(ht) ==> r == Err::<Vec<u8>, Error>(
                    Error::ObjectNotFound(object_id, object_type),
                )
                &&& m.contains_key(hwk) && spec_supported_wrap_alg(m[hwk].info.algorithm)
                    && m.contains_key(ht) && !m[ht].info.capabilities.spec_contains(
                    EXPORTABLE_UNDER_WRAP,
                ) ==> r == Err::<Vec<u8>, Error>(Error::CapabilityViolation(object_id, object_type))
                &&& m.contains_key(hwk) && spec_supported_wrap_alg(m[hwk].info.algorithm)
                    && m.contains_key(ht) && m[ht].info.capabilities.spec_contains(
                    EXPORTABLE_UNDER_WRAP,
                ) && wrap_nonce@.len() < DERIVED_NONCE_LEN ==> r == Err::<Vec<u8>, Error>(
                    Error::NonceTooShort,
                )
                &&& m.contains_key(hwk) && spec_supported_wrap_alg(m[hwk].info.algorithm)
                    && m.contains_key(ht) && m[ht].info.capabilities.spec_contains(
                    EXPORTABLE_UNDER_WRAP,
                ) && wrap_nonce@.len() >= DERIVED_NONCE_LEN ==> (r matches Ok(ct) && ct@ == seal_of(
                    m[hwk].data,
                    spec_nonce12(wrap_nonce@),
                    spec_encode_envelope(spec_wrap_envelope(m[ht])),
                ) && ct@.len() == spec_encode_envelope(spec_wrap_envelope(m[ht])).len()
                    + WRAPPED_DATA_MAC_SIZE)
            }),
    {
        let ghost m = self@;
        let ghost hwk = ObjectHandle { object_id: wrap_key_id, object_type: ObjectType::WrapKey };
        let ghost ht = ObjectHandle { object_id, object_type };
        proof {
            self.lemma_wf_objects();
        }
        let (key, use256) = match self.get(wrap_key_id, ObjectType::WrapKey) {
            None => {
                return Err(Error::WrapKeyNotFound(wrap_key_id));
            },
            Some(wk) => {
                match wk.object_info.algorithm {
                    Algorithm::Wrap(WrapAlg::Aes128Ccm) => (copy_bytes(wk.payload.data()), false),
                    Algorithm::Wrap(WrapAlg::Aes256Ccm) => (copy_bytes(wk.payload.data()), true),
                    _ => {
                        return Err(Error::UnsupportedWrapAlgorithm(wk.algorithm()));
                    },
                }
            },
        };
        proof {
            assert(key@ == m[hwk].data);
            assert(if use256 {
                key@.len() == 32
            } else {
                key@.len() == 16
            });
        }
        let target = match self.get(object_id, object_type) {
            None => {
                return Err(Error::ObjectNotFound(object_id, object_type));
            },
            Some(o) => o,
        };
        if !target.object_info.capabilities.contains(EXPORTABLE_UNDER_WRAP) {
            return Err(Error::CapabilityViolation(object_id, object_type));
        }
        let mut object_info = target.object_info.duplicate();
        object_info.origin = object_info.origin.promote();
        let data = copy_bytes(target.payload.data());
        let envelope = WrappedObject { object_info, data };
        proof {
            assert(envelope@.info =~= spec_promote_info(m[ht].info));
            assert(envelope@ =~= spec_wrap_envelope(m[ht]));
            assert(envelope@.wf());
        }
        let plaintext = encode_envelope(&envelope);
        if wrap_nonce.bytes.len() < DERIVED_NONCE_LEN {
            return Err(Error::NonceTooShort);
        }
        let nonce12 = nonce_prefix(wrap_nonce);
        proof {
            assert(plaintext@.len() <= MAX_SEAL_LEN);
        }
        let ciphertext = if use256 {
            aead_seal_256(&key, &nonce12, &plaintext)
        } else {
            aead_seal_128(&key, &nonce12, &plaintext)
        };
        Ok(ciphertext)
    }

    /// Import an object from ciphertext.  The ciphertext is opened under
    /// the named wrap key and the first 12 bytes of the caller's nonce; the
    /// recovered plaintext is decoded as an envelope and the reconstructed
    /// object inserted under its own handle.  Fails, in this order, when
    /// the wrap key is absent, when it declares an algorithm outside the
    /// supported set (before any cryptographic work), when the nonce is
    /// shorter than 12 bytes, when authenticated decryption rejects the
    /// ciphertext (any input that is not the sealing of some plaintext
    /// under this key and nonce), when the plaintext is not a well-formed
    /// envelope, and when the envelope's handle is already occupied.  Every
    /// failure leaves the store unchanged.
    pub fn unwrap(
        &mut self,
        wrap_key_id: u16,
        wrap_nonce: &WrapNonce,
        ciphertext: Vec<u8>,
    ) -> (r: Result<ObjectHandle, Error>)
        requires
            old(self).wf(),
        ensures
            final(self).wf(),
            ({
                let m = old(self)@;
                let hwk = ObjectHandle {
                    object_id: wrap_key_id,
                    object_type: ObjectType::WrapKey,
                };
                let key = m[hwk].data;
                let n12 = spec_nonce12(wrap_nonce@);
                &&& !m.contains_key(hwk) ==> r == Err::<ObjectHandle, Error>(
                    Error::WrapKeyNotFound(wrap_key_id),
                ) && final(self)@ == m
                &&& m.contains_key(hwk) && !spec_supported_wrap_alg(m[hwk].info.algorithm) ==> r
                    == Err::<ObjectHandle, Error>(
                    Error::UnsupportedWrapAlgorithm(m[hwk].info.algorithm),
                ) && final(self)@ == m
                &&& m.contains_key(hwk) && spec_supported_wrap_alg(m[hwk].info.algorithm)
                    && wrap_nonce@.len() < DERIVED_NONCE_LEN ==> r == Err::<ObjectHandle, Error>(
                    Error::NonceTooShort,
                ) && final(self)@ == m
                &&& m.contains_key(hwk) && spec_supported_wrap_alg(m[hwk].info.algorithm)
                    && wrap_nonce@.len() >= DERIVED_NONCE_LEN && ciphertext@.len() > MAX_SEAL_LEN
                    ==> r == Err::<ObjectHandle, Error>(Error::DecryptFailed) && final(self)@ == m
                &&& m.contains_key(hwk) && spec_supported_wrap_alg(m[hwk].info.algorithm)
                    && wrap_nonce@.len() >= DERIVED_NONCE_LEN && ciphertext@.len() <= MAX_SEAL_LEN
                    ==> {
                    &&& (forall|pt: Seq<u8>|
                        pt.len() + WRAPPED_DATA_MAC_SIZE == ciphertext@.len() ==> ciphertext@
                            != seal_of(key, n12, pt)) ==> r == Err::<ObjectHandle, Error>(
                        Error::DecryptFailed,
                    ) && final(self)@ == m
                    &&& forall|pt: Seq<u8>|
                        pt.len() + WRAPPED_DATA_MAC_SIZE == ciphertext@.len() && ciphertext@
                            == seal_of(key, n12, pt) ==> (match spec_decode_envelope(pt) {
                            None => r == Err::<ObjectHandle, Error>(Error::MalformedEnvelope)
                                && final(self)@ == m,
                            Some(ev) => {
                                let h = ev.info.handle();
                                &&& m.contains_key(h) ==> r == Err::<ObjectHandle, Error>(
                                    Error::AlreadyExists(h.object_id, h.object_type),
                                ) && final(self)@ == m
                                &&& !m.contains_key(h) ==> r == Ok::<ObjectHandle, Error>(h)
                                    && final(self)@ == m.insert(
                                    h,
                                    ObjectV { info: ev.info, data: ev.data },
                                )
                            },
                        })
                }
            }),
    {
        let ghost m = self@;
        let ghost hwk = ObjectHandle { object_id: wrap_key_id, object_type: ObjectType::WrapKey };
        proof {
            self.lemma_wf_objects();
        }
        let (key, use256) = match self.get(wrap_key_id, ObjectType::WrapKey) {
            None => {
                return Err(Error::WrapKeyNotFound(wrap_key_id));
            },
            Some(wk) => {
                match wk.object_info.algorithm {
                    Algorithm::Wrap(WrapAlg::Aes128Ccm) => (copy_bytes(wk.payload.data()), false),
                    Algorithm::Wrap(WrapAlg::Aes256Ccm) => (copy_bytes(wk.payload.data()), true),
                    _ => {
                        return Err(Error::UnsupportedWrapAlgorithm(wk.algorithm()));
                    },
                }
            },
        };
        proof {
            assert(key@ == m[hwk].data);
            assert(if use256 {
                key@.len() == 32
            } else {
                key@.len() == 16
            });
        }
        if wrap_nonce.bytes.len() < DERIVED_NONCE_LEN {
            return Err(Error::NonceTooShort);
        }
        let nonce12 = nonce_prefix(wrap_nonce);
        if ciphertext.len() > MAX_SEAL_LEN {
            return Err(Error::DecryptFailed);
        }
        let opened = if use256 {
            aead_open_256(&key, &nonce12, &ciphertext)
        } else {
            aead_open_128(&key, &nonce12, &ciphertext)
        };
        let plaintext = match opened {
            None => {
                return Err(Error::DecryptFailed);
            },
            Some(pt) => pt,
        };
        let envelope = match crate::codec::decode_envelope(plaintext.as_slice()) {
            None => {
                return Err(Error::MalformedEnvelope);
            },
            Some(w) => w,
        };
        proof {
            crate::codec::lemma_decode_wf(plaintext@);
        }
        let ghost ev2 = envelope@;
        let payload = match Payload::new(
            envelope.object_info.algorithm,
            envelope.data.as_slice(),
        ) {
            Ok(p) => p,
            Err(_) => {
                proof {
                    assert(false);
                }
                return Err(Error::MalformedEnvelope);
            },
        };
        let object_key = envelope.object_info.handle();
        let object = Object { object_info: envelope.object_info, payload };
        assert(object.wf());
        proof {
            assert(object@ =~= ObjectV { info: ev2.info, data: ev2.data });
        }
        match self.insert_object(object) {
            Ok(_) => Ok(object_key),
            Err(e) => Err(e),
        }
    }
}

/// Law: one object per handle.  An enumeration in strictly ascending handle
/// order — what [`Objects::iter`] returns — never lists two objects under
/// the same handle.
pub proof fn lemma_ascending_handles_distinct(pairs: Seq<(ObjectHandle, ObjectV)>)
    requires
        forall|i: int, j: int| 0 <= i < j < pairs.len() ==> spec_handle_lt(pairs[i].0, pairs[j].0),
    ensures
        forall|i: int, j: int|
            0 <= i < pairs.len() && 0 <= j < pairs.len() && i != j ==> pairs[i].0 != pairs[j].0,
{
    assert forall|i: int, j: int|
        0 <= i < pairs.len() && 0 <= j < pairs.len() && i != j implies pairs[i].0
        != pairs[j].0 by {
        if i < j {
            lemma_handle_order_total(pairs[i].0, pairs[j].0);
        } else {
            lemma_handle_order_total(pairs[j].0, pairs[i].0);
        }
    }
}

/// Law: wrap and unwrap round-trip.  The envelope that wrapping an object
/// seals decodes back to exactly that envelope: the same payload bytes and
/// the same metadata with the origin promoted once.  Promotion is
/// idempotent, so re-wrapping an already-wrapped object leaves its origin
/// unchanged.  Together with the contracts of [`Objects::wrap`] and
/// [`Objects::unwrap`], unwrapping a wrap ciphertext under the same key and
/// nonce reconstructs the object up to that one promotion.
pub proof fn lemma_wrap_round_trip(o: ObjectV)
    requires
        o.wf(),
    ensures
        spec_decode_envelope(spec_encode_envelope(spec_wrap_envelope(o))) == Some(
            spec_wrap_envelope(o),
        ),
        spec_wrap_envelope(o).data == o.data,
        spec_wrap_envelope(o).info == spec_promote_info(o.info),
        spec_promote_info(spec_promote_info(o.info)) == spec_promote_info(o.info),
{
    crate::codec::lemma_encode_decode_round_trip(spec_wrap_envelope(o));
    crate::object::lemma_promote_origin_idempotent(o.info.origin);
    assert(spec_promote_info(spec_promote_info(o.info)) =~= spec_promote_info(o.info));
}

/// Everything the factory-default authentication key is labelled with.
pub open spec fn spec_default_label() -> Seq<u8> {
    seq![
        0x44u8, 0x45, 0x46, 0x41, 0x55, 0x4c, 0x54, 0x20, 0x41, 0x55, 0x54, 0x48, 0x4b, 0x45,
        0x59, 0x20, 0x43, 0x48, 0x41, 0x4e, 0x47, 0x45, 0x20, 0x54, 0x48, 0x49, 0x53, 0x20,
        0x41, 0x53, 0x41, 0x50,
    ]
}

/// The handle of the factory-default authentication key.
pub open spec fn spec_default_handle() -> ObjectHandle {
    ObjectHandle {
        object_id: DEFAULT_AUTHENTICATION_KEY_ID,
        object_type: ObjectType::AuthenticationKey,
    }
}

/// The factory-default authentication key object: full capability and
/// domain bits, imported origin, the default-credential label.
pub open spec fn spec_default_object() -> ObjectV {
    ObjectV {
        info: ObjectInfoV {
            object_id: DEFAULT_AUTHENTICATION_KEY_ID,
            object_type: ObjectType::AuthenticationKey,
            algorithm: Algorithm::Auth(AuthenticationAlg::YubicoAes),
            capabilities: Capability { bits: 0xffff_ffff_ffff_ffffu64 },
            delegated_capabilities: Capability { bits: 0xffff_ffff_ffff_ffffu64 },
            domains: Domain { bits: 0xffffu16 },
            length: 32,
            sequence: 1,
            origin: ObjectOrigin::Imported,
            label: spec_default_label(),
        },
        data: Seq::new(32, |i: int| 0u8),
    }
}

/// The label of the factory-default authentication key: a fixed marker
/// telling operators to replace the default credential.
fn default_label() -> (r: ObjectLabel)
    ensures
        r@ == spec_default_label(),
        r.wf(),
{
    let mut v: Vec<u8> = Vec::new();
    v.push(0x44);
    v.push(0x45);
    v.push(0x46);
    v.push(0x41);
    v.push(0x55);
    v.push(0x4c);
    v.push(0x54);
    v.push(0x20);
    v.push(0x41);
    v.push(0x55);
    v.push(0x54);
    v.push(0x48);
    v.push(0x4b);
    v.push(0x45);
    v.push(0x59);
    v.push(0x20);
    v.push(0x43);
    v.push(0x48);
    v.push(0x41);
    v.push(0x4e);
    v.push(0x47);
    v.push(0x45);
    v.push(0x20);
    v.push(0x54);
    v.push(0x48);
    v.push(0x49);
    v.push(0x53);
    v.push(0x20);
    v.push(0x41);
    v.push(0x53);
    v.push(0x41);
    v.push(0x50);
    assert(v@ =~= spec_default_label());
    ObjectLabel { bytes: v }
}

impl Default for Objects {
    /// A fresh store holds exactly one object: the factory-default
    /// authentication key, with full capability and domain bits, under its
    /// well-known id.
    fn default() -> (r: Objects)
        ensures
            r.wf(),
            r@ == Map::<ObjectHandle, ObjectV>::empty().insert(
                spec_default_handle(),
                spec_default_object(),
            ),
    {
        let label = default_label();
        let payload = Payload::generate(Algorithm::Auth(AuthenticationAlg::YubicoAes));
        let length = payload.len();
        let object_info = ObjectInfo {
            object_id: DEFAULT_AUTHENTICATION_KEY_ID,
            object_type: ObjectType::AuthenticationKey,
            algorithm: Algorithm::Auth(AuthenticationAlg::YubicoAes),
            capabilities: Capability::all(),
            delegated_capabilities: Capability::all(),
            domains: Domain::all(),
            length,
            sequence: 1,
            origin: ObjectOrigin::Imported,
            label,
        };
        let object = Object { object_info, payload };
        let mut entries: Vec<Object> = Vec::new();
        entries.push(object);
        let r = Objects { entries };
        proof {
            let s = r.entries@;
            assert(s.len() == 1);
            assert(s.drop_last() =~= Seq::<Object>::empty());
            assert(spec_entries_map(Seq::<Object>::empty()) =~= Map::<ObjectHandle, ObjectV>::empty());
            assert(s.last()@ =~= spec_default_object());
            assert(s.last()@.info.handle() == spec_default_handle());
            assert(r@ == spec_entries_map(s));
            assert(spec_entries_map(s) == spec_entries_map(s.drop_last()).insert(
                s.last()@.info.handle(),
                s.last()@,
            ));
            assert(r@ =~= Map::<ObjectHandle, ObjectV>::empty().insert(
                spec_default_handle(),
                spec_default_object(),
            ));
        }
        r
    }
}

} // verus!

