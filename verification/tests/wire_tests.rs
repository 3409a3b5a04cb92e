use oprc_core::data::ObjectData;
use oprc_core::entries::EntryMap;
use oprc_core::model::{
    InvocationRequest, InvocationResponse, InvocationResponseCode, ObjectInvocationRequest,
    ObjectMetadata,
};
use oprc_core::str_map::StrMap;
use oprc_core::trigger::{FnTriggerType, ObjectEvent, TriggerTarget};
use oprc_core::wire;

fn sample_object_data() -> ObjectData {
    let meta = ObjectMetadata::new("Order".to_string(), 3, 42);
    let mut entries = EntryMap::new();
    entries.insert(1, vec![1, 2, 3]);
    entries.insert(2, vec![]);
    let mut data = ObjectData::new(meta, entries);
    let mut ev = ObjectEvent::new();
    assert!(ev.manage_fn_trigger(
        "done".to_string(),
        TriggerTarget::new("Audit".to_string(), 0, "log".to_string(), None, StrMap::new()),
        FnTriggerType::OnComplete,
        true,
    ));
    data.event = Some(ev);
    data
}

#[test]
fn object_data_round_trips_through_its_wire_form() {
    let data = sample_object_data();
    let encoded = data.into_proto();
    let decoded = ObjectData::from_proto(encoded);

    assert!(decoded.meta == data.meta);
    assert_eq!(decoded.entries.len(), 2);
    assert_eq!(decoded.entries.get(1), Some(&vec![1, 2, 3]));
    assert_eq!(decoded.entries.get(2), Some(&vec![]));
    let ev = decoded.event.expect("registry kept");
    assert_eq!(ev.fn_trigger_count(&"done".to_string(), FnTriggerType::OnComplete), 1);
    let t = ev
        .fn_trigger_get(&"done".to_string(), FnTriggerType::OnComplete, 0)
        .expect("target kept");
    assert_eq!(t.get_cls_id(), "Audit".to_string());
    assert_eq!(t.get_fn_id(), "log".to_string());
}

#[test]
fn object_data_encoding_tags_entries_as_bytes() {
    let data = sample_object_data();
    let encoded = data.into_proto();
    let meta = encoded.metadata.as_ref().expect("metadata wrapped in an option");
    assert_eq!(meta.cls_id, "Order".to_string());
    assert_eq!(meta.partition_id, 3);
    assert_eq!(meta.object_id, 42);
    assert_eq!(encoded.entries.len(), 2);
    for (_, val) in &encoded.entries {
        assert_eq!(val.val_type, wire::ValType::Byte);
    }
}

#[test]
fn object_data_without_metadata_decodes_to_the_default_identity() {
    let w = wire::ObjData { metadata: None, entries: Vec::new(), event: None };
    let decoded = ObjectData::from_proto(w);
    assert!(decoded.meta == ObjectMetadata::default());
    assert_eq!(decoded.entries.len(), 0);
    assert!(decoded.event.is_none());
}

#[test]
fn object_data_copy_is_deep() {
    let data = sample_object_data();
    let mut copy = data.copy();
    copy.entries.insert(9, vec![9]);
    if let Some(ev) = &mut copy.event {
        assert!(ev.manage_fn_trigger(
            "done".to_string(),
            TriggerTarget::new("B".to_string(), 0, "g".to_string(), None, StrMap::new()),
            FnTriggerType::OnComplete,
            true,
        ));
    }
    assert_eq!(data.entries.len(), 2);
    let ev = data.event.as_ref().expect("original registry untouched");
    assert_eq!(ev.fn_trigger_count(&"done".to_string(), FnTriggerType::OnComplete), 1);
}

#[test]
fn invocation_request_round_trips_through_its_wire_form() {
    let mut options = StrMap::new();
    options.insert("retry".to_string(), "3".to_string());
    let req = InvocationRequest::new(
        "calc".to_string(),
        "add".to_string(),
        4,
        options,
        vec![1, 2],
    );
    let decoded = InvocationRequest::from_proto(req.into_proto());
    assert_eq!(decoded.cls_id, "calc".to_string());
    assert_eq!(decoded.fn_id, "add".to_string());
    assert_eq!(decoded.partition_id, 4);
    assert_eq!(decoded.payload, vec![1, 2]);
    assert_eq!(decoded.options.get(&"retry".to_string()), Some(&"3".to_string()));
}

#[test]
fn object_invocation_request_round_trips_through_its_wire_form() {
    let req = ObjectInvocationRequest::new(
        "Order".to_string(),
        "ship".to_string(),
        42,
        1,
        StrMap::new(),
        vec![9],
    );
    let decoded = ObjectInvocationRequest::from_proto(req.into_proto());
    assert_eq!(decoded.cls_id, "Order".to_string());
    assert_eq!(decoded.fn_id, "ship".to_string());
    assert_eq!(decoded.object_id, 42);
    assert_eq!(decoded.partition_id, 1);
    assert_eq!(decoded.payload, vec![9]);
}

#[test]
fn response_encoding_carries_payload_and_numeric_status() {
    let resp = InvocationResponse::new(vec![3], InvocationResponseCode::AppError, StrMap::new());
    let w = resp.into_proto();
    assert_eq!(w.payload, Some(vec![3]));
    assert_eq!(w.status, 2);
}

#[test]
fn response_decoding_rejects_unknown_status_codes() {
    let w = wire::InvocationResponse { payload: Some(vec![1]), status: 9, headers: StrMap::new() };
    assert!(InvocationResponse::from_proto(w).is_none());
}

#[test]
fn response_decoding_defaults_an_absent_payload_to_empty() {
    let w = wire::InvocationResponse { payload: None, status: 0, headers: StrMap::new() };
    let resp = InvocationResponse::from_proto(w).expect("known status");
    assert_eq!(resp.payload, Vec::<u8>::new());
    assert_eq!(resp.status, InvocationResponseCode::Okay);
}

#[test]
fn metadata_round_trips_through_its_wire_form() {
    let m = ObjectMetadata::new("Order".to_string(), 7, 11);
    let decoded = ObjectMetadata::from_proto(m.into_proto());
    assert!(decoded == m);
}
