use oprc_core::str_map::StrMap;
use oprc_core::trigger::{DataTriggerType, FnTriggerType, ObjectEvent, TriggerTarget};

fn target(cls: &str, partition: u32, func: &str, object_id: Option<u64>) -> TriggerTarget {
    TriggerTarget::new(
        cls.to_string(),
        partition,
        func.to_string(),
        object_id,
        StrMap::new(),
    )
}

#[test]
fn add_same_fn_target_twice_is_idempotent() {
    let mut ev = ObjectEvent::new();
    let src = "source".to_string();
    let added = ev.manage_fn_trigger(
        src.clone(),
        target("A", 1, "f", None),
        FnTriggerType::OnComplete,
        true,
    );
    assert!(added);
    let added_again = ev.manage_fn_trigger(
        src.clone(),
        target("A", 1, "f", None),
        FnTriggerType::OnComplete,
        true,
    );
    assert!(!added_again);
    assert_eq!(ev.fn_trigger_count(&src, FnTriggerType::OnComplete), 1);
}

#[test]
fn remove_absent_fn_target_returns_false_and_changes_nothing() {
    let mut ev = ObjectEvent::new();
    let src = "source".to_string();
    let removed = ev.manage_fn_trigger(
        src.clone(),
        target("A", 1, "f", None),
        FnTriggerType::OnComplete,
        false,
    );
    assert!(!removed);
    assert!(!ev.has_fn_entry(&src));

    assert!(ev.manage_fn_trigger(
        src.clone(),
        target("A", 1, "f", None),
        FnTriggerType::OnComplete,
        true,
    ));
    let removed_other = ev.manage_fn_trigger(
        src.clone(),
        target("B", 1, "f", None),
        FnTriggerType::OnComplete,
        false,
    );
    assert!(!removed_other);
    assert_eq!(ev.fn_trigger_count(&src, FnTriggerType::OnComplete), 1);
}

#[test]
fn remove_present_fn_target_decrements_by_one() {
    let mut ev = ObjectEvent::new();
    let src = "source".to_string();
    assert!(ev.manage_fn_trigger(
        src.clone(),
        target("A", 1, "f", None),
        FnTriggerType::OnComplete,
        true,
    ));
    assert!(ev.manage_fn_trigger(
        src.clone(),
        target("B", 1, "g", None),
        FnTriggerType::OnComplete,
        true,
    ));
    let removed = ev.manage_fn_trigger(
        src.clone(),
        target("A", 1, "f", None),
        FnTriggerType::OnComplete,
        false,
    );
    assert!(removed);
    assert_eq!(ev.fn_trigger_count(&src, FnTriggerType::OnComplete), 1);
    let kept = ev
        .fn_trigger_get(&src, FnTriggerType::OnComplete, 0)
        .expect("one target left");
    assert_eq!(kept.get_cls_id(), "B".to_string());
}

#[test]
fn empty_entry_is_kept_after_last_removal() {
    let mut ev = ObjectEvent::new();
    let src = "source".to_string();
    assert!(ev.manage_fn_trigger(
        src.clone(),
        target("A", 1, "f", None),
        FnTriggerType::OnComplete,
        true,
    ));
    assert!(ev.manage_fn_trigger(
        src.clone(),
        target("A", 1, "f", None),
        FnTriggerType::OnComplete,
        false,
    ));
    assert!(ev.has_fn_entry(&src));
    assert_eq!(ev.fn_trigger_count(&src, FnTriggerType::OnComplete), 0);
}

#[test]
fn insertion_order_is_preserved() {
    let mut ev = ObjectEvent::new();
    let src = "source".to_string();
    for (cls, func) in [("C1", "f1"), ("C2", "f2"), ("C3", "f3")] {
        assert!(ev.manage_fn_trigger(
            src.clone(),
            target(cls, 0, func, None),
            FnTriggerType::OnError,
            true,
        ));
    }
    assert_eq!(ev.fn_trigger_count(&src, FnTriggerType::OnError), 3);
    let expected = ["C1", "C2", "C3"];
    for (i, cls) in expected.iter().enumerate() {
        let t = ev
            .fn_trigger_get(&src, FnTriggerType::OnError, i)
            .expect("target present");
        assert_eq!(t.get_cls_id(), cls.to_string());
    }
}

#[test]
fn event_kinds_and_sources_are_disjoint() {
    let mut ev = ObjectEvent::new();
    let f = "f".to_string();
    let g = "g".to_string();
    assert!(ev.manage_fn_trigger(
        f.clone(),
        target("A", 1, "h", None),
        FnTriggerType::OnComplete,
        true,
    ));
    assert_eq!(ev.fn_trigger_count(&f, FnTriggerType::OnComplete), 1);
    assert_eq!(ev.fn_trigger_count(&f, FnTriggerType::OnError), 0);
    assert_eq!(ev.fn_trigger_count(&g, FnTriggerType::OnComplete), 0);
    assert_eq!(ev.fn_trigger_count(&g, FnTriggerType::OnError), 0);
    assert_eq!(ev.data_trigger_count(5, DataTriggerType::OnCreate), 0);
}

#[test]
fn data_trigger_scenario_add_and_delete_twice() {
    let mut ev = ObjectEvent::new();
    let t = || target("Order", 0, "notify", None);
    assert!(ev.manage_data_trigger(5, t(), DataTriggerType::OnCreate, true));
    assert!(!ev.manage_data_trigger(5, t(), DataTriggerType::OnCreate, true));
    assert!(ev.manage_data_trigger(5, t(), DataTriggerType::OnCreate, false));
    assert!(!ev.manage_data_trigger(5, t(), DataTriggerType::OnCreate, false));
    assert!(ev.has_data_entry(5));
    assert_eq!(ev.data_trigger_count(5, DataTriggerType::OnCreate), 0);
}

#[test]
fn data_trigger_kinds_are_disjoint() {
    let mut ev = ObjectEvent::new();
    assert!(ev.manage_data_trigger(7, target("A", 1, "f", Some(9)), DataTriggerType::OnUpdate, true));
    assert_eq!(ev.data_trigger_count(7, DataTriggerType::OnCreate), 0);
    assert_eq!(ev.data_trigger_count(7, DataTriggerType::OnUpdate), 1);
    assert_eq!(ev.data_trigger_count(7, DataTriggerType::OnDelete), 0);
    assert_eq!(ev.data_trigger_count(8, DataTriggerType::OnUpdate), 0);
    let stored = ev
        .data_trigger_get(7, DataTriggerType::OnUpdate, 0)
        .expect("target present");
    assert_eq!(stored.get_object_id(), Some(9));
}

#[test]
fn structural_equality_ignores_option_order() {
    let mut opts_ab = StrMap::new();
    opts_ab.insert("a".to_string(), "1".to_string());
    opts_ab.insert("b".to_string(), "2".to_string());
    let mut opts_ba = StrMap::new();
    opts_ba.insert("b".to_string(), "2".to_string());
    opts_ba.insert("a".to_string(), "1".to_string());
    let t1 = TriggerTarget::new("A".to_string(), 1, "f".to_string(), None, opts_ab);
    let t2 = TriggerTarget::new("A".to_string(), 1, "f".to_string(), None, opts_ba);
    assert!(t1.same_target(&t2));

    let mut ev = ObjectEvent::new();
    let src = "s".to_string();
    assert!(ev.manage_fn_trigger(src.clone(), t1, FnTriggerType::OnComplete, true));
    assert!(!ev.manage_fn_trigger(src.clone(), t2, FnTriggerType::OnComplete, true));
}

#[test]
fn targets_differing_in_one_field_are_distinct() {
    let base = || target("A", 1, "f", Some(2));
    let mut ev = ObjectEvent::new();
    let src = "s".to_string();
    assert!(ev.manage_fn_trigger(src.clone(), base(), FnTriggerType::OnComplete, true));
    assert!(ev.manage_fn_trigger(
        src.clone(),
        target("B", 1, "f", Some(2)),
        FnTriggerType::OnComplete,
        true,
    ));
    assert!(ev.manage_fn_trigger(
        src.clone(),
        target("A", 2, "f", Some(2)),
        FnTriggerType::OnComplete,
        true,
    ));
    assert!(ev.manage_fn_trigger(
        src.clone(),
        target("A", 1, "g", Some(2)),
        FnTriggerType::OnComplete,
        true,
    ));
    assert!(ev.manage_fn_trigger(
        src.clone(),
        target("A", 1, "f", None),
        FnTriggerType::OnComplete,
        true,
    ));
    assert_eq!(ev.fn_trigger_count(&src, FnTriggerType::OnComplete), 5);
}

#[test]
fn target_accessors_round_trip() {
    let mut t = target("A", 1, "f", None);
    t.set_cls_id("B".to_string());
    t.set_partition_id(7);
    t.set_fn_id("g".to_string());
    t.set_object_id(Some(11));
    let mut opts = StrMap::new();
    opts.insert("k".to_string(), "v".to_string());
    t.set_req_options(opts);
    assert_eq!(t.get_cls_id(), "B".to_string());
    assert_eq!(t.get_partition_id(), 7);
    assert_eq!(t.get_fn_id(), "g".to_string());
    assert_eq!(t.get_object_id(), Some(11));
    let opts_back = t.get_req_options();
    assert_eq!(opts_back.get(&"k".to_string()), Some(&"v".to_string()));
}

#[test]
fn data_trigger_type_labels() {
    assert_eq!(DataTriggerType::OnCreate.label(), "OnCreate");
    assert_eq!(DataTriggerType::OnUpdate.label(), "OnUpdate");
    assert_eq!(DataTriggerType::OnDelete.label(), "OnDelete");
}

#[test]
fn duplicate_is_independent_of_the_original() {
    let mut ev = ObjectEvent::new();
    let src = "s".to_string();
    assert!(ev.manage_fn_trigger(
        src.clone(),
        target("A", 1, "f", None),
        FnTriggerType::OnComplete,
        true,
    ));
    let mut copy = ev.duplicate();
    assert_eq!(copy.fn_trigger_count(&src, FnTriggerType::OnComplete), 1);
    assert!(copy.manage_fn_trigger(
        src.clone(),
        target("B", 1, "f", None),
        FnTriggerType::OnComplete,
        true,
    ));
    assert_eq!(copy.fn_trigger_count(&src, FnTriggerType::OnComplete), 2);
    assert_eq!(ev.fn_trigger_count(&src, FnTriggerType::OnComplete), 1);
}
