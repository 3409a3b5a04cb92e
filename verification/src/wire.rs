//! Wire-shaped messages and the conversions to and from them.
//!
//! These structs mirror, field for field, the messages the transport
//! serializes.  The encoding of an [`ObjectData`] wraps its metadata in
//! an option, tags each stored entry as a byte value, and carries the
//! trigger registry through unchanged; decoding undoes all three, and
//! [`lemma_obj_data_round_trip`] proves that the round trip is the
//! identity on metadata, entries, and registry.

use vstd::prelude::*;
use crate::assoc::{distinct_keys, kv_map, lemma_kv_map_take_step};
use crate::data::{opt_event_view, opt_event_wf, ObjectData, ObjectDataV};
use crate::entries::{clone_bytes, kv_map_of_pairs, EntryMap};
use crate::model::{
    InvocationRequestV, InvocationResponseCode, ObjectInvocationRequestV, ObjectMetadata,
    ObjectMetadataV,
};
use crate::str_map::StrMap;
use crate::trigger::{ObjectEvent, ObjectEventV};

verus! {

/// Wire form of an object's identity.
pub struct ObjMeta {
    pub object_id: u64,
    pub cls_id: String,
    pub partition_id: u32,
}

impl View for ObjMeta {
    type V = ObjectMetadataV;

    open spec fn view(&self) -> ObjectMetadataV {
        ObjectMetadataV {
            object_id: self.object_id,
            cls_id: self.cls_id@,
            partition_id: self.partition_id,
        }
    }
}

/// The tag of a stored value on the wire.
#[derive(Clone, Copy, PartialEq, Eq, Structural, Debug)]
pub enum ValType {
    Byte,
}

/// Mathematical value of a [`ValData`].
#[verifier::ext_equal]
pub ghost struct ValDataV {
    pub data: Seq<u8>,
    pub val_type: ValType,
}

/// Wire form of one stored entry value: raw bytes and their tag.
pub struct ValData {
    pub data: Vec<u8>,
    pub val_type: ValType,
}

impl View for ValData {
    type V = ValDataV;

    open spec fn view(&self) -> ValDataV {
        ValDataV { data: self.data@, val_type: self.val_type }
    }
}

/// Abstraction of a wire entry key.
pub open spec fn wire_key_fn() -> spec_fn(u32) -> u32 {
    |k: u32| k
}

/// Abstraction of a wire entry value.
pub open spec fn wire_val_fn() -> spec_fn(ValData) -> ValDataV {
    |v: ValData| v@
}

/// Projection of a wire entry value to its bytes.
pub open spec fn wire_data_fn() -> spec_fn(ValData) -> Seq<u8> {
    |v: ValData| v.data@
}

/// Mathematical value of an [`ObjData`].
#[verifier::ext_equal]
pub ghost struct ObjDataV {
    pub metadata: Option<ObjectMetadataV>,
    pub entries: Map<u32, ValDataV>,
    pub event: Option<ObjectEventV>,
}

/// Wire form of an object's data.
pub struct ObjData {
    pub metadata: Option<ObjMeta>,
    pub entries: Vec<(u32, ValData)>,
    pub event: Option<ObjectEvent>,
}

impl View for ObjData {
    type V = ObjDataV;

    open spec fn view(&self) -> ObjDataV {
        ObjDataV {
            metadata: match self.metadata {
                Some(m) => Some(m@),
                None => None,
            },
            entries: kv_map(self.entries@, wire_key_fn(), wire_val_fn()),
            event: opt_event_view(self.event),
        }
    }
}

impl ObjData {
    /// Entry keys are pairwise distinct and the registry, when present,
    /// is well formed.
    pub open spec fn wf(self) -> bool {
        distinct_keys(self.entries@, wire_key_fn()) && opt_event_wf(self.event)
    }
}

/// Encoding at the level of values: the metadata is wrapped in an
/// option, every entry is tagged as a byte value, the registry is
/// carried through.
pub open spec fn spec_encode_obj_data(d: ObjectDataV) -> ObjDataV {
    ObjDataV {
        metadata: Some(d.meta),
        entries: d.entries.map_values(
            |b: Seq<u8>| ValDataV { data: b, val_type: ValType::Byte },
        ),
        event: d.event,
    }
}

/// The metadata a wire message without one decodes to.
pub open spec fn default_meta_v() -> ObjectMetadataV {
    ObjectMetadataV { object_id: 0, cls_id: Seq::empty(), partition_id: 0 }
}

/// Decoding at the level of values: an absent metadata becomes the
/// default identity, entries keep their bytes and lose their tag, the
/// registry is carried through.
pub open spec fn spec_decode_obj_data(w: ObjDataV) -> ObjectDataV {
    ObjectDataV {
        meta: match w.metadata {
            Some(m) => m,
            None => default_meta_v(),
        },
        entries: w.entries.map_values(|v: ValDataV| v.data),
        event: w.event,
    }
}

/// Round trip: encoding an object's data and decoding the result is the
/// identity on metadata, entries, and registry.
pub proof fn lemma_obj_data_round_trip(d: ObjectDataV)
    ensures
        spec_decode_obj_data(spec_encode_obj_data(d)) == d,
{
    let w = spec_encode_obj_data(d);
    assert(spec_decode_obj_data(w).entries =~= d.entries);
    assert(spec_decode_obj_data(w) =~= d);
}

impl ObjectData {
    /// Converts this object's data into its wire form.
    pub fn into_proto(&self) -> (r: ObjData)
        requires
            self.wf(),
        ensures
            r@ == spec_encode_obj_data(self@),
            r.wf(),
    {
        proof {
            self.entries.lemma_pairs();
        }
        let n = self.entries.pair_count();
        let mut entries: Vec<(u32, ValData)> = Vec::new();
        let mut i: usize = 0;
        while i < n
            invariant
                self.wf(),
                n == self.entries.spec_pair_count(),
                i <= n,
                entries@.len() == i,
                forall|j: int|
                    0 <= j < i ==> (#[trigger] entries@[j]).0 == self.entries.key_at(j)
                        && entries@[j].1.data@ == self.entries.val_at(j)
                        && entries@[j].1.val_type == ValType::Byte,
            decreases n - i,
        {
            let (k, v) = self.entries.pair_at(i);
            entries.push((k, ValData { data: clone_bytes(v), val_type: ValType::Byte }));
            i = i + 1;
        }
        proof {
            lemma_encode_entries(entries@, self.entries, n as int);
        }
        let metadata = Some(ObjMeta {
            object_id: self.meta.object_id,
            cls_id: self.meta.cls_id.clone(),
            partition_id: self.meta.partition_id,
        });
        let event = match &self.event {
            Some(e) => Some(e.duplicate()),
            None => None,
        };
        let r = ObjData { metadata, entries, event };
        proof {
            assert(r@ =~= spec_encode_obj_data(self@));
            assert forall|a: int, b: int|
                0 <= a < b < r.entries@.len() implies (#[trigger] r.entries@[a].0) != (
            #[trigger] r.entries@[b].0) by {
                assert(self.entries.key_at(a) != self.entries.key_at(b));
            };
            assert(distinct_keys(r.entries@, wire_key_fn()));
        }
        r
    }

    /// Decodes an object's data from its wire form.  Decoding never
    /// fails: an absent metadata becomes the default identity and, were
    /// a key repeated, the later entry would win, as it does in the
    /// denoted map.
    pub fn from_proto(w: ObjData) -> (r: Self)
        ensures
            r@ == spec_decode_obj_data(w@),
            w.wf() ==> r.wf(),
    {
        let ghost wv = w@;
        let meta = match w.metadata {
            Some(m) => ObjectMetadata::new(m.cls_id, m.partition_id, m.object_id),
            None => ObjectMetadata::new(String::new(), 0, 0),
        };
        let mut entries = EntryMap::new();
        let mut i: usize = 0;
        let n = w.entries.len();
        let mut rest = w.entries;
        proof {
            lemma_decode_entries(rest@);
        }
        while i < n
            invariant
                n == rest@.len(),
                i <= n,
                entries.wf(),
                entries@ == kv_map(rest@.take(i as int), wire_key_fn(), wire_data_fn()),
            decreases n - i,
        {
            let key = rest[i].0;
            let value = clone_bytes(&rest[i].1.data);
            entries.insert(key, value);
            proof {
                lemma_kv_map_take_step(rest@, wire_key_fn(), wire_data_fn(), i as int);
            }
            i = i + 1;
        }
        proof {
            assert(rest@.take(n as int) =~= rest@);
        }
        let r = ObjectData { meta, entries, event: w.event };
        proof {
            assert(r@ =~= spec_decode_obj_data(wv));
        }
        r
    }
}

/// The denoted wire entries, with keys kept and values projected to
/// bytes, equal the decoded entry map.
proof fn lemma_decode_entries(s: Seq<(u32, ValData)>)
    ensures
        kv_map(s, wire_key_fn(), wire_data_fn()) == kv_map(
            s,
            wire_key_fn(),
            wire_val_fn(),
        ).map_values(|v: ValDataV| v.data),
    decreases s.len(),
{
    if s.len() == 0 {
        assert(kv_map(s, wire_key_fn(), wire_data_fn()) =~= kv_map(
            s,
            wire_key_fn(),
            wire_val_fn(),
        ).map_values(|v: ValDataV| v.data));
    } else {
        lemma_decode_entries(s.drop_last());
        assert(kv_map(s, wire_key_fn(), wire_data_fn()) =~= kv_map(
            s,
            wire_key_fn(),
            wire_val_fn(),
        ).map_values(|v: ValDataV| v.data));
    }
}

/// A pair-for-pair encoding of an entry map denotes the wrapped map.
proof fn lemma_encode_entries(s: Seq<(u32, ValData)>, m: EntryMap, n: int)
    requires
        0 <= n <= m.spec_pair_count(),
        s.len() == n,
        forall|j: int|
            0 <= j < n ==> (#[trigger] s[j]).0 == m.key_at(j) && s[j].1.data@ == m.val_at(j)
                && s[j].1.val_type == ValType::Byte,
    ensures
        kv_map(s, wire_key_fn(), wire_val_fn()) == kv_map_of_pairs(m, n).map_values(
            |b: Seq<u8>| ValDataV { data: b, val_type: ValType::Byte },
        ),
    decreases n,
{
    let f = |b: Seq<u8>| ValDataV { data: b, val_type: ValType::Byte };
    if n == 0 {
        assert(kv_map(s, wire_key_fn(), wire_val_fn()) =~= kv_map_of_pairs(m, 0).map_values(
            f,
        ));
    } else {
        lemma_encode_entries(s.drop_last(), m, n - 1);
        assert(s.drop_last().len() == n - 1);
        assert(s.last() == s[n - 1]);
        assert(kv_map(s, wire_key_fn(), wire_val_fn()) =~= kv_map_of_pairs(m, n).map_values(
            f,
        ));
    }
}


/// Wire form of a function-invocation request; it mirrors the model
/// field for field.
pub struct InvocationRequest {
    pub partition_id: u32,
    pub cls_id: String,
    pub fn_id: String,
    pub options: StrMap,
    pub payload: Vec<u8>,
}

impl View for InvocationRequest {
    type V = InvocationRequestV;

    open spec fn view(&self) -> InvocationRequestV {
        InvocationRequestV {
            partition_id: self.partition_id,
            cls_id: self.cls_id@,
            fn_id: self.fn_id@,
            options: self.options@,
            payload: self.payload@,
        }
    }
}

/// Wire form of an object-invocation request; it mirrors the model
/// field for field.
pub struct ObjectInvocationRequest {
    pub partition_id: u32,
    pub cls_id: String,
    pub fn_id: String,
    pub object_id: u64,
    pub options: StrMap,
    pub payload: Vec<u8>,
}

impl View for ObjectInvocationRequest {
    type V = ObjectInvocationRequestV;

    open spec fn view(&self) -> ObjectInvocationRequestV {
        ObjectInvocationRequestV {
            partition_id: self.partition_id,
            cls_id: self.cls_id@,
            fn_id: self.fn_id@,
            object_id: self.object_id,
            options: self.options@,
            payload: self.payload@,
        }
    }
}

/// Mathematical value of a wire [`InvocationResponse`].
#[verifier::ext_equal]
pub ghost struct InvocationResponseWireV {
    pub payload: Option<Seq<u8>>,
    pub status: i32,
    pub headers: Map<Seq<char>, Seq<char>>,
}

/// Wire form of an invocation response: the payload is optional and the
/// status is a bare numeric code.
pub struct InvocationResponse {
    pub payload: Option<Vec<u8>>,
    pub status: i32,
    pub headers: StrMap,
}

impl View for InvocationResponse {
    type V = InvocationResponseWireV;

    open spec fn view(&self) -> InvocationResponseWireV {
        InvocationResponseWireV {
            payload: match self.payload {
                Some(p) => Some(p@),
                None => None,
            },
            status: self.status,
            headers: self.headers@,
        }
    }
}

impl crate::model::InvocationRequest {
    /// Converts this request into its wire form.
    pub fn into_proto(&self) -> (r: InvocationRequest)
        requires
            self.wf(),
        ensures
            r@ == self@,
            r.options.wf(),
    {
        InvocationRequest {
            partition_id: self.partition_id,
            cls_id: self.cls_id.clone(),
            fn_id: self.fn_id.clone(),
            options: self.options.duplicate(),
            payload: clone_bytes(&self.payload),
        }
    }

    /// Decodes a request from its wire form.
    pub fn from_proto(w: InvocationRequest) -> (r: Self)
        ensures
            r@ == w@,
            w.options.wf() ==> r.wf(),
    {
        crate::model::InvocationRequest {
            partition_id: w.partition_id,
            cls_id: w.cls_id,
            fn_id: w.fn_id,
            options: w.options,
            payload: w.payload,
        }
    }
}

impl crate::model::ObjectInvocationRequest {
    /// Converts this request into its wire form.
    pub fn into_proto(&self) -> (r: ObjectInvocationRequest)
        requires
            self.wf(),
        ensures
            r@ == self@,
            r.options.wf(),
    {
        ObjectInvocationRequest {
            partition_id: self.partition_id,
            cls_id: self.cls_id.clone(),
            fn_id: self.fn_id.clone(),
            object_id: self.object_id,
            options: self.options.duplicate(),
            payload: clone_bytes(&self.payload),
        }
    }

    /// Decodes a request from its wire form.
    pub fn from_proto(w: ObjectInvocationRequest) -> (r: Self)
        ensures
            r@ == w@,
            w.options.wf() ==> r.wf(),
    {
        crate::model::ObjectInvocationRequest {
            partition_id: w.partition_id,
            cls_id: w.cls_id,
            fn_id: w.fn_id,
            object_id: w.object_id,
            options: w.options,
            payload: w.payload,
        }
    }
}

impl crate::model::InvocationResponse {
    /// Converts this response into its wire form: the payload is always
    /// present and the status becomes its numeric code.
    pub fn into_proto(&self) -> (r: InvocationResponse)
        requires
            self.wf(),
        ensures
            r@ == (InvocationResponseWireV {
                payload: Some(self@.payload),
                status: self@.status.spec_code(),
                headers: self@.header,
            }),
            r.headers.wf(),
    {
        InvocationResponse {
            payload: Some(clone_bytes(&self.payload)),
            status: self.status.code(),
            headers: self.header.duplicate(),
        }
    }

    /// Decodes a response from its wire form.  Returns `Some` exactly
    /// when the numeric status is one of the four known codes; an absent
    /// payload decodes to an empty one.
    pub fn from_proto(w: InvocationResponse) -> (r: Option<Self>)
        requires
            w.headers.wf(),
        ensures
            match r {
                Some(resp) => {
                    &&& InvocationResponseCode::spec_from_code(w@.status) == Some(
                        resp@.status,
                    )
                    &&& resp@.payload == match w@.payload {
                        Some(p) => p,
                        None => Seq::<u8>::empty(),
                    }
                    &&& resp@.header == w@.headers
                    &&& resp.wf()
                },
                None => InvocationResponseCode::spec_from_code(w@.status) is None,
            },
    {
        match InvocationResponseCode::from_code(w.status) {
            Some(status) => {
                let payload = match w.payload {
                    Some(p) => p,
                    None => Vec::new(),
                };
                Some(crate::model::InvocationResponse { payload, status, header: w.headers })
            },
            None => None,
        }
    }
}

impl ObjectMetadata {
    /// Converts this metadata into its wire form.
    pub fn into_proto(&self) -> (r: ObjMeta)
        ensures
            r@ == self@,
    {
        ObjMeta {
            object_id: self.object_id,
            cls_id: self.cls_id.clone(),
            partition_id: self.partition_id,
        }
    }

    /// Decodes metadata from its wire form.
    pub fn from_proto(m: ObjMeta) -> (r: Self)
        ensures
            r@ == m@,
    {
        ObjectMetadata {
            object_id: m.object_id,
            cls_id: m.cls_id,
            partition_id: m.partition_id,
        }
    }
}

} // verus!
