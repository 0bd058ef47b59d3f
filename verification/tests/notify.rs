use std::cell::RefCell;
use std::collections::VecDeque;

use eluma::agent_bridge::{validate_with_service, MessageRefDto, UnreadReportDto, ValidReport};
use eluma::config::ServiceId;
use eluma::error::AppError;
use eluma::host::service_label;
use eluma::idmap::IdMap;
use eluma::notify::seen::{contains, insert, insert_all};
use eluma::notify::text::{count_body, rich_body, title};
use eluma::notify::{
    evaluate, plan_notifications, DiffOutcome, Dispatcher, MessageRef, NotificationSink, OutgoingNotification,
    ServiceNotifyState,
};
use eluma::state::{SeenRing, SEEN_RING_CAPACITY};
use eluma::weburl::parse_url;

fn ring_of(ids: &[&str]) -> SeenRing {
    SeenRing(ids.iter().map(|s| s.to_string()).collect())
}

fn as_vec(ring: &SeenRing) -> Vec<String> {
    ring.0.iter().cloned().collect()
}

#[test]
fn contains_finds_a_present_id() {
    let ring = ring_of(&["a", "b"]);
    assert!(contains(&ring, "a"));
}

#[test]
fn contains_is_false_for_an_absent_id() {
    let ring = ring_of(&["a", "b"]);
    assert!(!contains(&ring, "z"));
}

#[test]
fn insert_appends_a_new_id_at_the_back() {
    let mut ring = ring_of(&["a", "b"]);
    insert(&mut ring, "c");
    assert_eq!(as_vec(&ring), vec!["a", "b", "c"]);
}

#[test]
fn insert_touches_an_existing_id_moving_it_to_the_back() {
    let mut ring = ring_of(&["a", "b", "c"]);
    insert(&mut ring, "a");
    assert_eq!(as_vec(&ring), vec!["b", "c", "a"]);
}

#[test]
fn insert_at_capacity_evicts_the_oldest_entry() {
    let ids: VecDeque<String> = (0..SEEN_RING_CAPACITY).map(|n| n.to_string()).collect();
    let mut ring = SeenRing(ids);
    insert(&mut ring, "new");
    assert_eq!(ring.0.len(), SEEN_RING_CAPACITY);
    assert_eq!(ring.0.front().map(String::as_str), Some("1"));
    assert_eq!(ring.0.back().map(String::as_str), Some("new"));
}

#[test]
fn insert_touching_an_existing_id_never_grows_the_ring() {
    let ids: VecDeque<String> = (0..SEEN_RING_CAPACITY).map(|n| n.to_string()).collect();
    let mut ring = SeenRing(ids);
    insert(&mut ring, "0");
    assert_eq!(ring.0.len(), SEEN_RING_CAPACITY);
    assert_eq!(ring.0.back().map(String::as_str), Some("0"));
}

#[test]
fn insert_all_dedupes_repeated_ids_within_one_call() {
    let mut ring = SeenRing::new();
    insert_all(&mut ring, &["a", "b", "a", "c"]);
    assert_eq!(as_vec(&ring), vec!["a", "b", "c"]);
}

#[test]
fn insert_all_over_capacity_keeps_only_the_most_recent_ids_in_order() {
    let ids: Vec<String> = (0..SEEN_RING_CAPACITY + 5).map(|n| n.to_string()).collect();
    let refs: Vec<&str> = ids.iter().map(String::as_str).collect();
    let mut ring = SeenRing::new();
    insert_all(&mut ring, &refs);
    assert_eq!(ring.0.len(), SEEN_RING_CAPACITY);
    let expected: Vec<String> = (5..SEEN_RING_CAPACITY + 5).map(|n| n.to_string()).collect();
    assert_eq!(as_vec(&ring), expected);
}

#[test]
fn title_is_the_service_name_unchanged() {
    assert_eq!(title("Gmail — Personal"), "Gmail — Personal");
}

#[test]
fn rich_body_joins_from_and_subject_with_an_em_dash() {
    assert_eq!(rich_body(Some("Alice"), Some("Lunch?")), "Alice — Lunch?");
}

#[test]
fn rich_body_uses_only_from_when_subject_is_missing() {
    assert_eq!(rich_body(Some("Alice"), None), "Alice");
}

#[test]
fn rich_body_uses_only_subject_when_from_is_missing() {
    assert_eq!(rich_body(None, Some("Lunch?")), "Lunch?");
}

#[test]
fn rich_body_falls_back_when_both_are_missing() {
    assert_eq!(rich_body(None, None), "New message");
}

#[test]
fn count_body_formats_the_count_and_suffix() {
    assert_eq!(count_body(1), "1 new messages");
    assert_eq!(count_body(42), "42 new messages");
}

const SERVICE_ID: &str = "gmail-personal";
const SERVICE_ORIGIN: &str = "https://mail.google.com";

fn service_id() -> ServiceId {
    ServiceId::new(SERVICE_ID).expect("valid id")
}

fn plain_ref(id: &str) -> MessageRef {
    MessageRef { id: id.to_string(), from: None, subject: None, link: None }
}

fn message(id: &str) -> MessageRefDto {
    MessageRefDto { id: id.to_string(), from: None, subject: None, link: None }
}

fn make_report(count: Option<i64>, messages: Vec<MessageRefDto>) -> ValidReport {
    let dto = UnreadReportDto {
        service_id: SERVICE_ID.to_string(),
        count,
        messages,
        recipe_id: "gmail".to_string(),
        observed_at: 1_700_000_000_000,
        icon_candidates: Vec::new(),
    };
    let label = service_label(&service_id());
    validate_with_service(dto, &label, &parse_url(SERVICE_ORIGIN).expect("valid url"), parse_url(SERVICE_ORIGIN).ok()).expect("should validate")
}

struct FakeSink {
    shown: RefCell<Vec<OutgoingNotification>>,
    fail: bool,
}

impl NotificationSink for FakeSink {
    fn show(&self, notification: OutgoingNotification) -> Result<(), AppError> {
        if self.fail {
            return Err(AppError::Notification("fake sink failure".to_string()));
        }
        self.shown.borrow_mut().push(notification);
        Ok(())
    }
}

#[test]
fn seed_and_nothing_plan_no_notifications() {
    let id = service_id();
    assert!(plan_notifications(&id, "Gmail", DiffOutcome::Seed, 5).is_empty());
    assert!(plan_notifications(&id, "Gmail", DiffOutcome::Nothing, 5).is_empty());
}

#[test]
fn new_messages_under_threshold_produce_one_rich_notification_each() {
    let id = service_id();
    let refs = vec![
        MessageRef { id: "m1".to_string(), from: Some("Alice".to_string()), subject: Some("Hi".to_string()), link: None },
        plain_ref("m2"),
    ];
    let notifications = plan_notifications(&id, "Gmail", DiffOutcome::NewMessages(refs), 5);
    assert_eq!(notifications.len(), 2);
    assert_eq!(notifications[0].title, "Gmail");
    assert_eq!(notifications[0].body, "Alice — Hi");
    assert_eq!(notifications[1].body, "New message");
}

#[test]
fn count_increase_produces_one_count_notification() {
    let id = service_id();
    let notifications = plan_notifications(&id, "Gmail", DiffOutcome::CountIncrease(4), 5);
    assert_eq!(notifications.len(), 1);
    assert_eq!(notifications[0].title, "Gmail");
    assert_eq!(notifications[0].body, "4 new messages");
}

#[test]
fn batching_threshold_boundary_equal_count_is_not_batched() {
    let id = service_id();
    let refs: Vec<MessageRef> = (0..3).map(|i| plain_ref(&format!("m{i}"))).collect();
    let notifications = plan_notifications(&id, "Gmail", DiffOutcome::NewMessages(refs), 3);
    assert_eq!(notifications.len(), 3);
}

#[test]
fn batching_threshold_boundary_over_count_is_batched() {
    let id = service_id();
    let refs: Vec<MessageRef> = (0..4).map(|i| plain_ref(&format!("m{i}"))).collect();
    let notifications = plan_notifications(&id, "Gmail", DiffOutcome::NewMessages(refs), 3);
    assert_eq!(notifications.len(), 1);
    assert_eq!(notifications[0].body, "4 new messages");
}

#[test]
fn toggles_gate_sending() {
    let id = service_id();
    let sink = FakeSink { shown: RefCell::new(Vec::new()), fail: false };
    let dispatcher = Dispatcher::new(sink);
    dispatcher.send(&id, "Gmail", false, false, 5, DiffOutcome::CountIncrease(3));
    dispatcher.send(&id, "Gmail", false, true, 5, DiffOutcome::CountIncrease(3));
    dispatcher.send(&id, "Gmail", true, false, 5, DiffOutcome::CountIncrease(3));
    assert!(dispatcher.sink().shown.borrow().is_empty());
    dispatcher.send(&id, "Gmail", true, true, 5, DiffOutcome::CountIncrease(3));
    let shown = dispatcher.sink().shown.borrow();
    assert_eq!(shown.len(), 1);
    assert_eq!(shown[0].body, "3 new messages");
    let failing = Dispatcher::new(FakeSink { shown: RefCell::new(Vec::new()), fail: true });
    failing.send(&id, "Gmail", true, true, 5, DiffOutcome::CountIncrease(3));
    assert!(failing.sink().shown.borrow().is_empty());
}

#[test]
fn first_report_seeds_then_new_ids_and_count_rises_are_reported() {
    let mut prev = ServiceNotifyState::new();
    let ring = SeenRing::new();
    let seed = make_report(Some(5), vec![]);
    assert!(matches!(evaluate(&mut prev, &seed, &ring), DiffOutcome::Seed));
    assert_eq!(prev.last_count(), Some(5));

    let none = make_report(None, vec![]);
    assert!(matches!(evaluate(&mut prev, &none, &ring), DiffOutcome::Nothing));
    assert_eq!(prev.last_count(), Some(5));

    let up = make_report(Some(7), vec![]);
    assert!(matches!(evaluate(&mut prev, &up, &ring), DiffOutcome::CountIncrease(2)));

    let down = make_report(Some(2), vec![]);
    assert!(matches!(evaluate(&mut prev, &down, &ring), DiffOutcome::Nothing));

    let seen = ring_of(&["m1"]);
    let with_messages = make_report(Some(3), vec![message("m1"), message("m2"), message("m2")]);
    match evaluate(&mut prev, &with_messages, &seen) {
        DiffOutcome::NewMessages(refs) => {
            assert_eq!(refs.len(), 1);
            assert_eq!(refs[0].id, "m2");
        }
        _ => panic!("expected new messages"),
    }
}

#[test]
fn dispatcher_seeds_the_ring_then_persists_only_new_ids() {
    let sink = FakeSink { shown: RefCell::new(Vec::new()), fail: false };
    let mut dispatcher = Dispatcher::new(sink);
    let id = service_id();
    let mut ring = SeenRing::new();

    let seed = make_report(Some(2), vec![message("m1"), message("m2")]);
    let outcome = dispatcher.evaluate_and_persist(&mut ring, &id, &seed);
    assert!(matches!(outcome, DiffOutcome::Seed));
    assert_eq!(as_vec(&ring), vec!["m1", "m2"]);

    let later = make_report(Some(3), vec![message("m1"), message("m3")]);
    let outcome = dispatcher.evaluate_and_persist(&mut ring, &id, &later);
    match &outcome {
        DiffOutcome::NewMessages(refs) => assert_eq!(refs.len(), 1),
        _ => panic!("expected new messages"),
    }
    assert_eq!(as_vec(&ring), vec!["m1", "m2", "m3"]);
}

#[test]
fn a_report_evaluated_again_after_persisting_notifies_nothing() {
    let sink = FakeSink { shown: RefCell::new(Vec::new()), fail: false };
    let mut dispatcher = Dispatcher::new(sink);
    let id = service_id();
    let mut ring = SeenRing::new();

    let seed = make_report(Some(1), vec![message("m1")]);
    assert_eq!(dispatcher.evaluate_and_persist(&mut ring, &id, &seed), DiffOutcome::Seed);

    let report = make_report(Some(3), vec![message("m1"), message("m2"), message("m3"), message("m2")]);
    let first = dispatcher.evaluate_and_persist(&mut ring, &id, &report);
    assert_eq!(first, DiffOutcome::NewMessages(vec![plain_ref("m2"), plain_ref("m3")]));
    let again = dispatcher.evaluate_and_persist(&mut ring, &id, &report);
    assert_eq!(again, DiffOutcome::Nothing);
}

#[test]
fn evaluating_over_saved_rings_updates_only_the_reporting_service() {
    let sink = FakeSink { shown: RefCell::new(Vec::new()), fail: false };
    let mut dispatcher = Dispatcher::new(sink);
    let id = service_id();
    let other = ServiceId::new("other").expect("valid id");
    let mut rings: IdMap<SeenRing> = IdMap::new();
    rings.insert(other.clone(), ring_of(&["x1"]));

    let seed = make_report(Some(2), vec![message("m1"), message("m2")]);
    assert_eq!(dispatcher.evaluate_and_persist_in(&mut rings, &id, &seed), DiffOutcome::Seed);
    assert_eq!(as_vec(rings.get(&id).expect("ring created")), vec!["m1", "m2"]);
    assert_eq!(as_vec(rings.get(&other).expect("kept")), vec!["x1"]);

    let later = make_report(Some(3), vec![message("m1"), message("m3")]);
    let outcome = dispatcher.evaluate_and_persist_in(&mut rings, &id, &later);
    assert!(matches!(outcome, DiffOutcome::NewMessages(ref refs) if refs.len() == 1));
    assert_eq!(as_vec(rings.get(&id).expect("ring kept")), vec!["m1", "m2", "m3"]);
    assert_eq!(as_vec(rings.get(&other).expect("kept")), vec!["x1"]);
}
