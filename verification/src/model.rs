//! The invocation request/response model.
//!
//! The decoded, transport-independent representation of a function call
//! or object-method call, its result, and the metadata identifying an
//! object.  Values of these types arrive already deserialized from the
//! wire and are re-serialized by the transport; the conversions to the
//! wire-shaped structs live in [`crate::wire`].

use vstd::prelude::*;
use crate::str_map::StrMap;
use crate::text::{dec_digits, u64_to_dec};

verus! {

/// The status of an invocation response: a closed taxonomy shared by
/// every caller.  `InvalidRequest` is reserved for malformed-request
/// detection upstream of the engine call.
#[derive(Clone, Copy, PartialEq, Eq, Structural, Debug)]
pub enum InvocationResponseCode {
    Okay,
    InvalidRequest,
    AppError,
    SystemError,
}

impl InvocationResponseCode {
    /// The numeric code carried on the wire.
    pub open spec fn spec_code(self) -> i32 {
        match self {
            InvocationResponseCode::Okay => 0,
            InvocationResponseCode::InvalidRequest => 1,
            InvocationResponseCode::AppError => 2,
            InvocationResponseCode::SystemError => 3,
        }
    }

    /// The status denoted by a numeric code, if the code is known.
    pub open spec fn spec_from_code(code: i32) -> Option<InvocationResponseCode> {
        if code == 0 {
            Some(InvocationResponseCode::Okay)
        } else if code == 1 {
            Some(InvocationResponseCode::InvalidRequest)
        } else if code == 2 {
            Some(InvocationResponseCode::AppError)
        } else if code == 3 {
            Some(InvocationResponseCode::SystemError)
        } else {
            None
        }
    }

    /// Returns the numeric code carried on the wire.
    pub fn code(&self) -> (r: i32)
        ensures
            r == self.spec_code(),
    {
        match self {
            InvocationResponseCode::Okay => 0,
            InvocationResponseCode::InvalidRequest => 1,
            InvocationResponseCode::AppError => 2,
            InvocationResponseCode::SystemError => 3,
        }
    }

    /// Decodes a numeric code.  Returns `Some` exactly for the four
    /// known codes, and the status whose code round-trips.
    pub fn from_code(code: i32) -> (r: Option<InvocationResponseCode>)
        ensures
            r == InvocationResponseCode::spec_from_code(code),
            match r {
                Some(c) => c.spec_code() == code,
                None => !(0 <= code <= 3),
            },
    {
        if code == 0 {
            Some(InvocationResponseCode::Okay)
        } else if code == 1 {
            Some(InvocationResponseCode::InvalidRequest)
        } else if code == 2 {
            Some(InvocationResponseCode::AppError)
        } else if code == 3 {
            Some(InvocationResponseCode::SystemError)
        } else {
            None
        }
    }
}

impl InvocationResponseCode {
    /// The printable name of the status.
    pub fn label(&self) -> (r: &'static str)
        ensures
            r@ == status_label(*self),
    {
        match self {
            InvocationResponseCode::Okay => "Okay",
            InvocationResponseCode::InvalidRequest => "InvalidRequest",
            InvocationResponseCode::AppError => "AppError",
            InvocationResponseCode::SystemError => "SystemError",
        }
    }

}

/// The printable name of a status.
pub open spec fn status_label(c: InvocationResponseCode) -> Seq<char> {
    match c {
        InvocationResponseCode::Okay => "Okay"@,
        InvocationResponseCode::InvalidRequest => "InvalidRequest"@,
        InvocationResponseCode::AppError => "AppError"@,
        InvocationResponseCode::SystemError => "SystemError"@,
    }
}

/// Mathematical value of an [`InvocationRequest`].
#[verifier::ext_equal]
pub ghost struct InvocationRequestV {
    pub partition_id: u32,
    pub cls_id: Seq<char>,
    pub fn_id: Seq<char>,
    pub options: Map<Seq<char>, Seq<char>>,
    pub payload: Seq<u8>,
}

/// A request to invoke a pure function, scoped to a class and a
/// partition; no object identity.
pub struct InvocationRequest {
    pub partition_id: u32,
    pub cls_id: String,
    pub fn_id: String,
    pub options: StrMap,
    pub payload: Vec<u8>,
}

impl View for InvocationRequest {
    type V = InvocationRequestV;

    open spec fn view(&self) -> InvocationRequestV {
        InvocationRequestV {
            partition_id: self.partition_id,
            cls_id: self.cls_id@,
            fn_id: self.fn_id@,
            options: self.options@,
            payload: self.payload@,
        }
    }
}

impl InvocationRequest {
    /// The option map has distinct keys.
    pub open spec fn wf(self) -> bool {
        self.options.wf()
    }

    /// Creates a new request.
    pub fn new(
        cls_id: String,
        fn_id: String,
        partition_id: u32,
        options: StrMap,
        payload: Vec<u8>,
    ) -> (r: Self)
        requires
            options.wf(),
        ensures
            r.wf(),
            r@ == (InvocationRequestV {
                partition_id: partition_id,
                cls_id: cls_id@,
                fn_id: fn_id@,
                options: options@,
                payload: payload@,
            }),
    {
        InvocationRequest { partition_id, cls_id, fn_id, options, payload }
    }
}

/// Mathematical value of an [`ObjectInvocationRequest`].
#[verifier::ext_equal]
pub ghost struct ObjectInvocationRequestV {
    pub partition_id: u32,
    pub cls_id: Seq<char>,
    pub fn_id: Seq<char>,
    pub object_id: u64,
    pub options: Map<Seq<char>, Seq<char>>,
    pub payload: Seq<u8>,
}

/// A request to invoke a method bound to one addressable object.
pub struct ObjectInvocationRequest {
    pub partition_id: u32,
    pub cls_id: String,
    pub fn_id: String,
    pub object_id: u64,
    pub options: StrMap,
    pub payload: Vec<u8>,
}

impl View for ObjectInvocationRequest {
    type V = ObjectInvocationRequestV;

    open spec fn view(&self) -> ObjectInvocationRequestV {
        ObjectInvocationRequestV {
            partition_id: self.partition_id,
            cls_id: self.cls_id@,
            fn_id: self.fn_id@,
            object_id: self.object_id,
            options: self.options@,
            payload: self.payload@,
        }
    }
}

impl ObjectInvocationRequest {
    /// The option map has distinct keys.
    pub open spec fn wf(self) -> bool {
        self.options.wf()
    }

    /// Creates a new request.
    pub fn new(
        cls_id: String,
        fn_id: String,
        object_id: u64,
        partition_id: u32,
        options: StrMap,
        payload: Vec<u8>,
    ) -> (r: Self)
        requires
            options.wf(),
        ensures
            r.wf(),
            r@ == (ObjectInvocationRequestV {
                partition_id: partition_id,
                cls_id: cls_id@,
                fn_id: fn_id@,
                object_id: object_id,
                options: options@,
                payload: payload@,
            }),
    {
        ObjectInvocationRequest { partition_id, cls_id, fn_id, object_id, options, payload }
    }
}

/// Mathematical value of an [`InvocationResponse`].
#[verifier::ext_equal]
pub ghost struct InvocationResponseV {
    pub payload: Seq<u8>,
    pub status: InvocationResponseCode,
    pub header: Map<Seq<char>, Seq<char>>,
}

/// The result of one invocation: produced exactly once per request,
/// even on internal failure.
pub struct InvocationResponse {
    pub payload: Vec<u8>,
    pub status: InvocationResponseCode,
    pub header: StrMap,
}

impl View for InvocationResponse {
    type V = InvocationResponseV;

    open spec fn view(&self) -> InvocationResponseV {
        InvocationResponseV {
            payload: self.payload@,
            status: self.status,
            header: self.header@,
        }
    }
}

impl InvocationResponse {
    /// The header map has distinct keys.
    pub open spec fn wf(self) -> bool {
        self.header.wf()
    }

    /// Creates a new response.
    pub fn new(payload: Vec<u8>, status: InvocationResponseCode, header: StrMap) -> (r: Self)
        requires
            header.wf(),
        ensures
            r.wf(),
            r@ == (InvocationResponseV {
                payload: payload@,
                status: status,
                header: header@,
            }),
    {
        InvocationResponse { payload, status, header }
    }

    /// Renders the response's shape for humans: how many payload bytes
    /// and header entries it carries, and its status.
    pub fn describe(&self) -> (r: String)
        requires
            self.wf(),
        ensures
            r@ == spec_describe_response(self@),
    {
        let mut s = "InvocationResponse { payload: ".to_owned();
        s.append(u64_to_dec(self.payload.len() as u64).as_str());
        s.append(" bytes, status: ");
        s.append(self.status.label());
        s.append(", header: ");
        s.append(u64_to_dec(self.header.len() as u64).as_str());
        s.append(" entries }");
        proof {
            assert(s@ =~= spec_describe_response(self@));
        }
        s
    }
}

/// The human-readable description of a response's shape.
pub open spec fn spec_describe_response(r: InvocationResponseV) -> Seq<char> {
    "InvocationResponse { payload: "@ + dec_digits(r.payload.len()) + " bytes, status: "@
        + status_label(r.status) + ", header: "@ + dec_digits(r.header.dom().len())
        + " entries }"@
}

/// Mathematical value of an [`ObjectMetadata`].
#[verifier::ext_equal]
pub ghost struct ObjectMetadataV {
    pub object_id: u64,
    pub cls_id: Seq<char>,
    pub partition_id: u32,
}

/// The immutable identity of an object: class, partition, and object
/// id.  Equality is structural over all three fields.
#[derive(Debug, Hash)]
pub struct ObjectMetadata {
    pub object_id: u64,
    pub cls_id: String,
    pub partition_id: u32,
}

impl View for ObjectMetadata {
    type V = ObjectMetadataV;

    open spec fn view(&self) -> ObjectMetadataV {
        ObjectMetadataV {
            object_id: self.object_id,
            cls_id: self.cls_id@,
            partition_id: self.partition_id,
        }
    }
}

impl PartialEq for ObjectMetadata {
    /// Structural equality over all three fields.
    fn eq(&self, other: &Self) -> (r: bool) {
        let r = self.object_id == other.object_id && self.cls_id == other.cls_id
            && self.partition_id == other.partition_id;
        proof {
            if r {
                assert(self@ =~= other@);
            }
        }
        r
    }
}

impl vstd::std_specs::cmp::PartialEqSpecImpl for ObjectMetadata {
    open spec fn obeys_eq_spec() -> bool {
        true
    }

    open spec fn eq_spec(&self, other: &Self) -> bool {
        self@ == other@
    }
}

impl Default for ObjectMetadata {
    /// The metadata a wire message without one decodes to.
    fn default() -> (r: Self)
        ensures
            r@ == (ObjectMetadataV { object_id: 0, cls_id: Seq::empty(), partition_id: 0 }),
    {
        ObjectMetadata { object_id: 0, cls_id: String::new(), partition_id: 0 }
    }
}

impl ObjectMetadata {
    /// Creates a new metadata value.
    pub fn new(cls_id: String, partition_id: u32, object_id: u64) -> (r: Self)
        ensures
            r@ == (ObjectMetadataV {
                object_id: object_id,
                cls_id: cls_id@,
                partition_id: partition_id,
            }),
    {
        ObjectMetadata { object_id, cls_id, partition_id }
    }

    /// Copies the metadata, field for field.
    pub fn duplicate(&self) -> (r: Self)
        ensures
            r@ == self@,
    {
        ObjectMetadata {
            object_id: self.object_id,
            cls_id: self.cls_id.clone(),
            partition_id: self.partition_id,
        }
    }

    /// Renders the metadata for humans.
    pub fn describe(&self) -> (r: String)
        ensures
            r@ == spec_describe_metadata(self@),
    {
        let mut s = "ObjectMetadata { object_id: ".to_owned();
        s.append(u64_to_dec(self.object_id).as_str());
        s.append(", cls_id: ");
        s.append(self.cls_id.as_str());
        s.append(", partition_id: ");
        s.append(u64_to_dec(self.partition_id as u64).as_str());
        s.append(" }");
        proof {
            assert(s@ =~= spec_describe_metadata(self@));
        }
        s
    }
}

/// The human-readable description of a metadata value.
pub open spec fn spec_describe_metadata(m: ObjectMetadataV) -> Seq<char> {
    "ObjectMetadata { object_id: "@ + dec_digits(m.object_id as nat) + ", cls_id: "@
        + m.cls_id + ", partition_id: "@ + dec_digits(m.partition_id as nat) + " }"@
}

} // verus!
