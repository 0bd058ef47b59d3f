use eluma::config::ServiceId;
use eluma::unread::{emit_if_changed, is_off_origin, AttentionReason, ServiceStatus, StatusChanged, StatusStore};
use eluma::weburl::parse_url;

fn id(value: &str) -> ServiceId {
    ServiceId::new(value).expect("valid id")
}

const GMAIL_ORIGIN: &str = "https://mail.google.com";

fn origin(url: &str) -> Option<String> {
    parse_url(url).expect("valid url").origin
}

#[test]
fn from_report_some_is_ok() {
    assert_eq!(ServiceStatus::from_report(Some(3)), ServiceStatus::Counted { count: 3 });
}

#[test]
fn from_report_none_is_needs_attention_reported_none() {
    assert_eq!(
        ServiceStatus::from_report(None),
        ServiceStatus::NeedsAttention { reason: AttentionReason::ReportedNone }
    );
}

#[test]
fn mark_loading_registers_and_emits() {
    let mut store = StatusStore::new();
    let changed = store.mark_loading(&id("gmail")).expect("should change");
    assert_eq!(changed.service_id, id("gmail"));
    assert_eq!(changed.status, ServiceStatus::Loading);
    assert_eq!(store.statuses().get(&id("gmail")), Some(&ServiceStatus::Loading));
}

#[test]
fn mark_loading_again_while_already_loading_does_not_emit() {
    let mut store = StatusStore::new();
    store.mark_loading(&id("gmail"));
    assert_eq!(store.mark_loading(&id("gmail")), None);
}

#[test]
fn mark_create_failed_transitions_and_emits() {
    let mut store = StatusStore::new();
    store.mark_loading(&id("gmail"));
    let changed = store.mark_create_failed(&id("gmail")).expect("should change");
    assert_eq!(changed.status, ServiceStatus::NeedsAttention { reason: AttentionReason::CreateFailed });
}

#[test]
fn mark_create_failed_twice_does_not_emit_the_second_time() {
    let mut store = StatusStore::new();
    store.mark_loading(&id("gmail"));
    store.mark_create_failed(&id("gmail"));
    assert_eq!(store.mark_create_failed(&id("gmail")), None);
}

#[test]
fn record_report_some_transitions_to_ok_and_emits() {
    let mut store = StatusStore::new();
    store.mark_loading(&id("gmail"));
    let changed = store.record_report(&id("gmail"), Some(7)).expect("should change");
    assert_eq!(changed.status, ServiceStatus::Counted { count: 7 });
}

#[test]
fn record_report_none_transitions_to_needs_attention_reported_none() {
    let mut store = StatusStore::new();
    store.mark_loading(&id("gmail"));
    let changed = store.record_report(&id("gmail"), None).expect("should change");
    assert_eq!(changed.status, ServiceStatus::NeedsAttention { reason: AttentionReason::ReportedNone });
}

#[test]
fn record_report_same_count_twice_does_not_emit_the_second_time() {
    let mut store = StatusStore::new();
    store.mark_loading(&id("gmail"));
    store.record_report(&id("gmail"), Some(3));
    assert_eq!(store.record_report(&id("gmail"), Some(3)), None);
}

#[test]
fn record_report_changing_count_emits_again() {
    let mut store = StatusStore::new();
    store.mark_loading(&id("gmail"));
    store.record_report(&id("gmail"), Some(3));
    let changed = store.record_report(&id("gmail"), Some(4)).expect("should change");
    assert_eq!(changed.status, ServiceStatus::Counted { count: 4 });
}

#[test]
fn record_report_ignores_an_unregistered_service() {
    let mut store = StatusStore::new();
    assert_eq!(store.record_report(&id("never-created"), Some(1)), None);
    assert!(store.statuses().is_empty());
}

#[test]
fn record_page_load_off_origin_transitions_and_emits() {
    let mut store = StatusStore::new();
    store.mark_loading(&id("gmail"));
    let page = parse_url("https://evil.example.com").expect("valid url");
    let changed = store.record_page_load(&id("gmail"), &page, &origin(GMAIL_ORIGIN)).expect("should change");
    assert_eq!(changed.status, ServiceStatus::NeedsAttention { reason: AttentionReason::OffOrigin });
}

#[test]
fn record_page_load_same_origin_does_not_change_or_emit() {
    let mut store = StatusStore::new();
    store.mark_loading(&id("gmail"));
    store.record_report(&id("gmail"), Some(2));
    let page = parse_url("https://mail.google.com/mail/u/0/").expect("valid url");
    assert_eq!(store.record_page_load(&id("gmail"), &page, &origin(GMAIL_ORIGIN)), None);
    assert_eq!(store.statuses().get(&id("gmail")), Some(&ServiceStatus::Counted { count: 2 }));
}

#[test]
fn record_page_load_about_page_does_not_change_or_emit() {
    let mut store = StatusStore::new();
    store.mark_loading(&id("gmail"));
    let page = parse_url("about:blank").expect("valid url");
    assert_eq!(store.record_page_load(&id("gmail"), &page, &origin(GMAIL_ORIGIN)), None);
    assert_eq!(store.statuses().get(&id("gmail")), Some(&ServiceStatus::Loading));
}

#[test]
fn off_origin_is_cleared_by_the_next_report_not_by_a_same_origin_page_load() {
    let mut store = StatusStore::new();
    store.mark_loading(&id("gmail"));
    let evil = parse_url("https://evil.example.com").expect("valid url");
    store.record_page_load(&id("gmail"), &evil, &origin(GMAIL_ORIGIN));
    assert_eq!(
        store.statuses().get(&id("gmail")),
        Some(&ServiceStatus::NeedsAttention { reason: AttentionReason::OffOrigin })
    );
    let same = parse_url("https://mail.google.com/mail/u/0/").expect("valid url");
    store.record_page_load(&id("gmail"), &same, &origin(GMAIL_ORIGIN));
    assert_eq!(
        store.statuses().get(&id("gmail")),
        Some(&ServiceStatus::NeedsAttention { reason: AttentionReason::OffOrigin })
    );
    let changed = store.record_report(&id("gmail"), Some(5)).expect("should change");
    assert_eq!(changed.status, ServiceStatus::Counted { count: 5 });
}

#[test]
fn mark_stale_sets_stale_and_emits_once() {
    let mut store = StatusStore::new();
    store.mark_loading(&id("gmail"));
    let changed = store.mark_stale(&id("gmail")).expect("should change");
    assert_eq!(changed.status, ServiceStatus::Stale);
    assert_eq!(store.mark_stale(&id("gmail")), None);
    assert_eq!(store.mark_stale(&id("unknown")), None);
}

#[test]
fn remove_of_an_unregistered_service_is_a_no_op() {
    let mut store = StatusStore::new();
    store.remove(&id("never-existed"));
    assert!(store.statuses().is_empty());
}

#[test]
fn a_service_can_be_recreated_after_removal() {
    let mut store = StatusStore::new();
    store.mark_loading(&id("gmail"));
    store.record_report(&id("gmail"), Some(1));
    store.remove(&id("gmail"));

    let changed = store.mark_loading(&id("gmail")).expect("should change");
    assert_eq!(changed.status, ServiceStatus::Loading);
}

#[test]
fn emit_if_changed_calls_emit_only_when_some() {
    let mut calls = Vec::new();
    emit_if_changed(None, |changed| calls.push(changed));
    assert!(calls.is_empty());

    let changed = StatusChanged { service_id: id("gmail"), status: ServiceStatus::Loading };
    emit_if_changed(Some(changed.clone()), |c| calls.push(c));
    assert_eq!(calls, vec![changed]);
}

#[test]
fn an_opaque_service_origin_makes_every_page_off_origin() {
    let page = parse_url("https://mail.google.com/").expect("valid url");
    assert!(is_off_origin(&page, &None));
    let about = parse_url("about:blank").expect("valid url");
    assert!(!is_off_origin(&about, &None));
}
