use oprc_core::entries::EntryMap;
use oprc_core::model::{
    InvocationRequest, InvocationResponse, InvocationResponseCode, ObjectInvocationRequest,
    ObjectMetadata,
};
use oprc_core::str_map::StrMap;
use oprc_core::text::u64_to_dec;

#[test]
fn response_codes_round_trip() {
    let codes = [
        (InvocationResponseCode::Okay, 0),
        (InvocationResponseCode::InvalidRequest, 1),
        (InvocationResponseCode::AppError, 2),
        (InvocationResponseCode::SystemError, 3),
    ];
    for (status, number) in codes {
        assert_eq!(status.code(), number);
        assert_eq!(InvocationResponseCode::from_code(number), Some(status));
    }
}

#[test]
fn unknown_response_codes_are_rejected() {
    assert_eq!(InvocationResponseCode::from_code(-1), None);
    assert_eq!(InvocationResponseCode::from_code(4), None);
    assert_eq!(InvocationResponseCode::from_code(255), None);
}

#[test]
fn invocation_request_keeps_its_fields() {
    let mut options = StrMap::new();
    options.insert("retry".to_string(), "3".to_string());
    let req = InvocationRequest::new(
        "calc".to_string(),
        "add".to_string(),
        4,
        options,
        vec![1, 2],
    );
    assert_eq!(req.cls_id, "calc".to_string());
    assert_eq!(req.fn_id, "add".to_string());
    assert_eq!(req.partition_id, 4);
    assert_eq!(req.payload, vec![1, 2]);
    assert_eq!(req.options.get(&"retry".to_string()), Some(&"3".to_string()));
}

#[test]
fn object_invocation_request_keeps_its_fields() {
    let req = ObjectInvocationRequest::new(
        "Order".to_string(),
        "ship".to_string(),
        42,
        1,
        StrMap::new(),
        vec![9],
    );
    assert_eq!(req.cls_id, "Order".to_string());
    assert_eq!(req.fn_id, "ship".to_string());
    assert_eq!(req.object_id, 42);
    assert_eq!(req.partition_id, 1);
    assert_eq!(req.payload, vec![9]);
    assert_eq!(req.options.len(), 0);
}

#[test]
fn invocation_response_keeps_its_fields() {
    let mut header = StrMap::new();
    header.insert("trace".to_string(), "abc".to_string());
    let resp = InvocationResponse::new(vec![3], InvocationResponseCode::Okay, header);
    assert_eq!(resp.payload, vec![3]);
    assert_eq!(resp.status, InvocationResponseCode::Okay);
    assert_eq!(resp.header.get(&"trace".to_string()), Some(&"abc".to_string()));
}

#[test]
fn metadata_equality_is_structural() {
    let a = ObjectMetadata::new("Order".to_string(), 1, 42);
    let b = ObjectMetadata::new("Order".to_string(), 1, 42);
    let c = ObjectMetadata::new("Order".to_string(), 1, 43);
    let d = ObjectMetadata::new("Invoice".to_string(), 1, 42);
    let e = ObjectMetadata::new("Order".to_string(), 2, 42);
    assert!(a == b);
    assert!(a != c);
    assert!(a != d);
    assert!(a != e);
}

#[test]
fn metadata_default_is_the_zero_identity() {
    let m = ObjectMetadata::default();
    assert_eq!(m.object_id, 0);
    assert_eq!(m.cls_id, String::new());
    assert_eq!(m.partition_id, 0);
}

#[test]
fn str_map_insert_replaces_and_get_misses_absent_keys() {
    let mut m = StrMap::new();
    assert_eq!(m.len(), 0);
    m.insert("k".to_string(), "v1".to_string());
    m.insert("k".to_string(), "v2".to_string());
    m.insert("other".to_string(), "x".to_string());
    assert_eq!(m.len(), 2);
    assert_eq!(m.get(&"k".to_string()), Some(&"v2".to_string()));
    assert_eq!(m.get(&"missing".to_string()), None);
}

#[test]
fn str_map_equality_ignores_order() {
    let mut m1 = StrMap::new();
    m1.insert("a".to_string(), "1".to_string());
    m1.insert("b".to_string(), "2".to_string());
    let mut m2 = StrMap::new();
    m2.insert("b".to_string(), "2".to_string());
    m2.insert("a".to_string(), "1".to_string());
    assert!(m1.map_eq(&m2));
    m2.insert("c".to_string(), "3".to_string());
    assert!(!m1.map_eq(&m2));
}

#[test]
fn entry_map_insert_replaces_and_len_counts_keys() {
    let mut m = EntryMap::new();
    m.insert(1, vec![1, 2]);
    m.insert(2, vec![]);
    m.insert(1, vec![7]);
    assert_eq!(m.len(), 2);
    assert_eq!(m.get(1), Some(&vec![7]));
    assert_eq!(m.get(2), Some(&vec![]));
    assert_eq!(m.get(3), None);
}

#[test]
fn decimal_rendering_is_exact() {
    assert_eq!(u64_to_dec(0), "0".to_string());
    assert_eq!(u64_to_dec(7), "7".to_string());
    assert_eq!(u64_to_dec(10), "10".to_string());
    assert_eq!(u64_to_dec(42), "42".to_string());
    assert_eq!(u64_to_dec(1234567890), "1234567890".to_string());
    assert_eq!(u64_to_dec(u64::MAX), "18446744073709551615".to_string());
}

#[test]
fn status_labels_are_exact() {
    assert_eq!(InvocationResponseCode::Okay.label(), "Okay");
    assert_eq!(InvocationResponseCode::InvalidRequest.label(), "InvalidRequest");
    assert_eq!(InvocationResponseCode::AppError.label(), "AppError");
    assert_eq!(InvocationResponseCode::SystemError.label(), "SystemError");
}

#[test]
fn metadata_description_is_exact() {
    let m = ObjectMetadata::new("Order".to_string(), 1, 42);
    assert_eq!(
        m.describe(),
        "ObjectMetadata { object_id: 42, cls_id: Order, partition_id: 1 }".to_string()
    );
}

#[test]
fn response_description_is_exact() {
    let mut header = StrMap::new();
    header.insert("trace".to_string(), "abc".to_string());
    let resp = InvocationResponse::new(vec![1, 2, 3], InvocationResponseCode::Okay, header);
    assert_eq!(
        resp.describe(),
        "InvocationResponse { payload: 3 bytes, status: Okay, header: 1 entries }".to_string()
    );
}
