//! The invocation gateway.
//!
//! The gateway terminates inbound invocation traffic: it hands each
//! decoded request to the execution engine and guarantees exactly one
//! structurally valid response per request.  A fault while obtaining the
//! engine's result — the engine raised, returned a malformed value, or
//! was unreachable — is absorbed and converted into a response carrying
//! `AppError` and a description of the fault; it never propagates
//! outward.

use vstd::prelude::*;
use crate::model::{
    InvocationRequest, InvocationResponse, InvocationResponseCode, InvocationResponseV,
    ObjectInvocationRequest,
};
use crate::str_map::StrMap;

verus! {

/// How obtaining the engine's result failed.
#[derive(Clone, Copy, PartialEq, Eq, Structural, Debug)]
pub enum EngineFaultKind {
    /// The engine raised instead of returning a response.
    Raised,
    /// The engine returned a value of the wrong shape.
    MalformedResult,
    /// The engine could not be reached at all.
    Unreachable,
}

/// Mathematical value of an [`EngineFault`].
#[verifier::ext_equal]
pub ghost struct EngineFaultV {
    pub kind: EngineFaultKind,
    pub detail: Seq<u8>,
}

/// A fault captured as data: what failed, and the raw text the engine
/// boundary reported about it.
pub struct EngineFault {
    pub kind: EngineFaultKind,
    pub detail: Vec<u8>,
}

impl View for EngineFault {
    type V = EngineFaultV;

    open spec fn view(&self) -> EngineFaultV {
        EngineFaultV { kind: self.kind, detail: self.detail@ }
    }
}

/// The bytes that open a fault description, naming its kind.
pub open spec fn fault_prefix(kind: EngineFaultKind) -> Seq<u8> {
    match kind {
        EngineFaultKind::Raised => seq![
            ('e' as u8), ('n' as u8), ('g' as u8), ('i' as u8), ('n' as u8), ('e' as u8), (' ' as u8), ('r' as u8), ('a' as u8), ('i' as u8), ('s' as u8), ('e' as u8), ('d' as u8),
            (':' as u8), (' ' as u8),
        ],
        EngineFaultKind::MalformedResult => seq![
            ('m' as u8), ('a' as u8), ('l' as u8), ('f' as u8), ('o' as u8), ('r' as u8), ('m' as u8), ('e' as u8), ('d' as u8), (' ' as u8), ('r' as u8), ('e' as u8), ('s' as u8),
            ('u' as u8), ('l' as u8), ('t' as u8), (':' as u8), (' ' as u8),
        ],
        EngineFaultKind::Unreachable => seq![
            ('e' as u8), ('n' as u8), ('g' as u8), ('i' as u8), ('n' as u8), ('e' as u8), (' ' as u8), ('u' as u8), ('n' as u8), ('r' as u8), ('e' as u8), ('a' as u8), ('c' as u8),
            ('h' as u8), ('a' as u8), ('b' as u8), ('l' as u8), ('e' as u8), (':' as u8), (' ' as u8),
        ],
    }
}

/// The description of a fault: its kind's prefix, then the reported
/// detail.
pub open spec fn fault_bytes(f: EngineFaultV) -> Seq<u8> {
    fault_prefix(f.kind) + f.detail
}

impl EngineFault {
    /// Renders the human-readable description of the fault.
    pub fn describe(&self) -> (r: Vec<u8>)
        ensures
            r@ == fault_bytes(self@),
    {
        let mut r: Vec<u8> = Vec::new();
        match self.kind {
            EngineFaultKind::Raised => {
                r.push(('e' as u8));
                r.push(('n' as u8));
                r.push(('g' as u8));
                r.push(('i' as u8));
                r.push(('n' as u8));
                r.push(('e' as u8));
                r.push((' ' as u8));
                r.push(('r' as u8));
                r.push(('a' as u8));
                r.push(('i' as u8));
                r.push(('s' as u8));
                r.push(('e' as u8));
                r.push(('d' as u8));
                r.push((':' as u8));
                r.push((' ' as u8));
            },
            EngineFaultKind::MalformedResult => {
                r.push(('m' as u8));
                r.push(('a' as u8));
                r.push(('l' as u8));
                r.push(('f' as u8));
                r.push(('o' as u8));
                r.push(('r' as u8));
                r.push(('m' as u8));
                r.push(('e' as u8));
                r.push(('d' as u8));
                r.push((' ' as u8));
                r.push(('r' as u8));
                r.push(('e' as u8));
                r.push(('s' as u8));
                r.push(('u' as u8));
                r.push(('l' as u8));
                r.push(('t' as u8));
                r.push((':' as u8));
                r.push((' ' as u8));
            },
            EngineFaultKind::Unreachable => {
                r.push(('e' as u8));
                r.push(('n' as u8));
                r.push(('g' as u8));
                r.push(('i' as u8));
                r.push(('n' as u8));
                r.push(('e' as u8));
                r.push((' ' as u8));
                r.push(('u' as u8));
                r.push(('n' as u8));
                r.push(('r' as u8));
                r.push(('e' as u8));
                r.push(('a' as u8));
                r.push(('c' as u8));
                r.push(('h' as u8));
                r.push(('a' as u8));
                r.push(('b' as u8));
                r.push(('l' as u8));
                r.push(('e' as u8));
                r.push((':' as u8));
                r.push((' ' as u8));
            },
        }
        proof {
            assert(r@ =~= fault_prefix(self.kind));
        }
        let mut detail = crate::entries::clone_bytes(&self.detail);
        r.append(&mut detail);
        r
    }
}

/// The value of an engine outcome.
pub open spec fn outcome_view(o: Result<InvocationResponse, EngineFault>) -> Result<
    InvocationResponseV,
    EngineFaultV,
> {
    match o {
        Ok(resp) => Ok(resp@),
        Err(f) => Err(f@),
    }
}

/// What the gateway returns for each engine outcome: a successful
/// response is returned unchanged; a fault becomes a response with
/// status `AppError`, the fault's description as payload, and no
/// headers.
pub open spec fn settled(
    outcome: Result<InvocationResponseV, EngineFaultV>,
    r: InvocationResponseV,
) -> bool {
    match outcome {
        Ok(resp) => r == resp,
        Err(f) => r == (InvocationResponseV {
            payload: fault_bytes(f),
            status: InvocationResponseCode::AppError,
            header: Map::empty(),
        }),
    }
}

/// Converts an engine outcome into the one response the caller
/// receives.
pub fn settle_invocation(outcome: Result<InvocationResponse, EngineFault>) -> (r:
    InvocationResponse)
    requires
        outcome matches Ok(resp) ==> resp.wf(),
    ensures
        r.wf(),
        settled(outcome_view(outcome), r@),
{
    match outcome {
        Ok(resp) => resp,
        Err(f) => {
            let payload = f.describe();
            let header = StrMap::new();
            let r = InvocationResponse {
                payload,
                status: InvocationResponseCode::AppError,
                header,
            };
            proof {
                assert(r@ =~= (InvocationResponseV {
                    payload: fault_bytes(f@),
                    status: InvocationResponseCode::AppError,
                    header: Map::empty(),
                }));
            }
            r
        },
    }
}

/// Total response on failure: whatever fault the engine produced, the
/// settled response carries `AppError`, a non-empty payload describing
/// the fault, and no headers.
pub proof fn lemma_fault_response_total(f: EngineFaultV, r: InvocationResponseV)
    requires
        settled(Err(f), r),
    ensures
        r.status == InvocationResponseCode::AppError,
        r.payload.len() > 0,
        r.header == Map::<Seq<char>, Seq<char>>::empty(),
{
    assert(fault_prefix(f.kind).len() > 0);
}

/// The execution engine as a capability: the externally supplied
/// handler that actually runs application code.  An implementation
/// returns a well-formed response or signals a fault the gateway can
/// describe; how it executes the call is its own affair.
pub trait ExecutionEngine {
    /// Runs a function invocation.
    fn invoke_fn(&mut self, req: &InvocationRequest) -> (r: Result<
        InvocationResponse,
        EngineFault,
    >)
        requires
            req.wf(),
        ensures
            r matches Ok(resp) ==> resp.wf(),
    ;

    /// Runs an object-method invocation.
    fn invoke_obj(&mut self, req: &ObjectInvocationRequest) -> (r: Result<
        InvocationResponse,
        EngineFault,
    >)
        requires
            req.wf(),
        ensures
            r matches Ok(resp) ==> resp.wf(),
    ;
}

/// The invocation gateway: delegates each request to the engine
/// injected at construction and settles the outcome into exactly one
/// response.
pub struct InvocationHandler<E: ExecutionEngine> {
    engine: E,
}

impl<E: ExecutionEngine> InvocationHandler<E> {
    /// Creates a gateway around an engine.
    pub fn new(engine: E) -> Self {
        InvocationHandler { engine }
    }

    /// Handles a function invocation.  Never fails outward: whatever
    /// outcome the engine produced, the result is the settled response
    /// for it.
    pub fn invoke_fn(&mut self, req: &InvocationRequest) -> (r: InvocationResponse)
        requires
            req.wf(),
        ensures
            r.wf(),
            exists|o: Result<InvocationResponseV, EngineFaultV>| #[trigger] settled(o, r@),
    {
        let outcome = self.engine.invoke_fn(req);
        let ghost o = outcome_view(outcome);
        let r = settle_invocation(outcome);
        proof {
            assert(settled(o, r@));
        }
        r
    }

    /// Handles an object-method invocation, with the same contract.
    pub fn invoke_obj(&mut self, req: &ObjectInvocationRequest) -> (r: InvocationResponse)
        requires
            req.wf(),
        ensures
            r.wf(),
            exists|o: Result<InvocationResponseV, EngineFaultV>| #[trigger] settled(o, r@),
    {
        let outcome = self.engine.invoke_obj(req);
        let ghost o = outcome_view(outcome);
        let r = settle_invocation(outcome);
        proof {
            assert(settled(o, r@));
        }
        r
    }
}

} // verus!
