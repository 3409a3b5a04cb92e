use oprc_core::gateway::{
    settle_invocation, EngineFault, EngineFaultKind, ExecutionEngine, InvocationHandler,
};
use oprc_core::model::{
    InvocationRequest, InvocationResponse, InvocationResponseCode, ObjectInvocationRequest,
};
use oprc_core::str_map::StrMap;

/// An engine that answers every call with a fixed payload and status.
struct FixedEngine {
    payload: Vec<u8>,
    status: InvocationResponseCode,
}

impl ExecutionEngine for FixedEngine {
    fn invoke_fn(&mut self, _req: &InvocationRequest) -> Result<InvocationResponse, EngineFault> {
        Ok(InvocationResponse::new(self.payload.clone(), self.status, StrMap::new()))
    }

    fn invoke_obj(
        &mut self,
        _req: &ObjectInvocationRequest,
    ) -> Result<InvocationResponse, EngineFault> {
        Ok(InvocationResponse::new(self.payload.clone(), self.status, StrMap::new()))
    }
}

/// An engine that fails every call with a fixed fault.
struct FailingEngine {
    kind: EngineFaultKind,
    detail: Vec<u8>,
}

impl ExecutionEngine for FailingEngine {
    fn invoke_fn(&mut self, _req: &InvocationRequest) -> Result<InvocationResponse, EngineFault> {
        Err(EngineFault { kind: self.kind, detail: self.detail.clone() })
    }

    fn invoke_obj(
        &mut self,
        _req: &ObjectInvocationRequest,
    ) -> Result<InvocationResponse, EngineFault> {
        Err(EngineFault { kind: self.kind, detail: self.detail.clone() })
    }
}

fn fn_request() -> InvocationRequest {
    InvocationRequest::new(
        "calc".to_string(),
        "add".to_string(),
        0,
        StrMap::new(),
        vec![1, 2],
    )
}

fn obj_request() -> ObjectInvocationRequest {
    ObjectInvocationRequest::new(
        "Order".to_string(),
        "ship".to_string(),
        42,
        0,
        StrMap::new(),
        vec![1],
    )
}

#[test]
fn successful_engine_response_is_returned_unchanged() {
    let engine = FixedEngine { payload: vec![3], status: InvocationResponseCode::Okay };
    let mut handler = InvocationHandler::new(engine);
    let resp = handler.invoke_fn(&fn_request());
    assert_eq!(resp.payload, vec![3]);
    assert_eq!(resp.status, InvocationResponseCode::Okay);
    assert_eq!(resp.header.len(), 0);
}

#[test]
fn engine_chosen_status_is_passed_through() {
    let engine = FixedEngine { payload: vec![], status: InvocationResponseCode::SystemError };
    let mut handler = InvocationHandler::new(engine);
    let resp = handler.invoke_obj(&obj_request());
    assert_eq!(resp.status, InvocationResponseCode::SystemError);
}

#[test]
fn engine_fault_becomes_an_app_error_response() {
    let engine = FailingEngine { kind: EngineFaultKind::Raised, detail: b"boom".to_vec() };
    let mut handler = InvocationHandler::new(engine);
    let resp = handler.invoke_fn(&fn_request());
    assert_eq!(resp.status, InvocationResponseCode::AppError);
    assert_eq!(resp.payload, b"engine raised: boom".to_vec());
    assert_eq!(resp.header.len(), 0);
}

#[test]
fn object_invocation_fault_becomes_an_app_error_response() {
    let engine = FailingEngine {
        kind: EngineFaultKind::Unreachable,
        detail: b"no route".to_vec(),
    };
    let mut handler = InvocationHandler::new(engine);
    let resp = handler.invoke_obj(&obj_request());
    assert_eq!(resp.status, InvocationResponseCode::AppError);
    assert_eq!(resp.payload, b"engine unreachable: no route".to_vec());
    assert!(!resp.payload.is_empty());
}

#[test]
fn fault_payload_is_nonempty_even_for_an_empty_detail() {
    let engine = FailingEngine { kind: EngineFaultKind::MalformedResult, detail: Vec::new() };
    let mut handler = InvocationHandler::new(engine);
    let resp = handler.invoke_fn(&fn_request());
    assert_eq!(resp.status, InvocationResponseCode::AppError);
    assert_eq!(resp.payload, b"malformed result: ".to_vec());
    assert!(!resp.payload.is_empty());
}

#[test]
fn settle_passes_ok_outcomes_through() {
    let resp = InvocationResponse::new(vec![5], InvocationResponseCode::AppError, StrMap::new());
    let settled = settle_invocation(Ok(resp));
    assert_eq!(settled.payload, vec![5]);
    assert_eq!(settled.status, InvocationResponseCode::AppError);
}

#[test]
fn settle_describes_err_outcomes() {
    let fault = EngineFault { kind: EngineFaultKind::Raised, detail: b"TypeError: x".to_vec() };
    let settled = settle_invocation(Err(fault));
    assert_eq!(settled.status, InvocationResponseCode::AppError);
    assert_eq!(settled.payload, b"engine raised: TypeError: x".to_vec());
    assert_eq!(settled.header.len(), 0);
}
