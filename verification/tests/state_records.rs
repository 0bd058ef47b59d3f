use eluma::config::ServiceId;
use eluma::error::AppError;
use eluma::notify::{notifications_to_show, DiffOutcome, Dispatcher, MessageRef, NotificationSink, OutgoingNotification};
use eluma::state::{first_over_capacity, worker_step, StalenessStats, WorkerFlags, WorkerStep, SEEN_RING_CAPACITY};

#[test]
fn a_new_staleness_record_has_no_episode() {
    assert_eq!(StalenessStats::new(), StalenessStats { count: 0, last_at: None });
}

#[test]
fn a_stale_episode_counts_once_and_records_its_time() {
    let once = StalenessStats::new().after_stale(Some(1_000));
    assert_eq!(once, StalenessStats { count: 1, last_at: Some(1_000) });
    let twice = once.after_stale(Some(2_000));
    assert_eq!(twice, StalenessStats { count: 2, last_at: Some(2_000) });
}

#[test]
fn a_stale_episode_without_a_clock_keeps_the_time() {
    let stats = StalenessStats { count: 4, last_at: Some(7) }.after_stale(None);
    assert_eq!(stats, StalenessStats { count: 5, last_at: Some(7) });
}

#[test]
fn a_stale_time_never_moves_back() {
    let stats = StalenessStats { count: 1, last_at: Some(5_000) }.after_stale(Some(4_000));
    assert_eq!(stats, StalenessStats { count: 2, last_at: Some(5_000) });
}

#[test]
fn the_stale_count_stays_at_its_maximum() {
    let stats = StalenessStats { count: u32::MAX, last_at: None }.after_stale(Some(1));
    assert_eq!(stats.count, u32::MAX);
}

#[test]
fn first_over_capacity_finds_the_first_ring_too_long() {
    assert_eq!(first_over_capacity(&vec![]), None);
    assert_eq!(first_over_capacity(&vec![0, SEEN_RING_CAPACITY, 3]), None);
    assert_eq!(first_over_capacity(&vec![1, SEEN_RING_CAPACITY + 1, SEEN_RING_CAPACITY + 2]), Some(1));
}

#[test]
fn an_io_error_message_starts_with_its_kind() {
    let err = AppError::Io(std::io::Error::new(std::io::ErrorKind::Other, "disk full"));
    assert!(err.message().starts_with("io error: "));
}

#[test]
fn notifications_are_shown_only_when_both_toggles_are_on() {
    let id = ServiceId::new("gmail").expect("valid id");
    for (global, service) in [(false, false), (false, true), (true, false)] {
        let shown = notifications_to_show(global, service, &id, "Gmail", DiffOutcome::CountIncrease(2), 5);
        assert!(shown.is_empty(), "toggles {global}/{service} must show nothing");
    }
    let shown = notifications_to_show(true, true, &id, "Gmail", DiffOutcome::CountIncrease(2), 5);
    assert_eq!(shown.len(), 1);
    assert_eq!(shown[0].service, id);
    assert_eq!(shown[0].title, "Gmail");
}

#[test]
fn a_seed_or_nothing_outcome_shows_no_notification() {
    let id = ServiceId::new("gmail").expect("valid id");
    assert!(notifications_to_show(true, true, &id, "Gmail", DiffOutcome::Seed, 5).is_empty());
    assert!(notifications_to_show(true, true, &id, "Gmail", DiffOutcome::Nothing, 5).is_empty());
}

#[test]
fn a_pending_change_waits_out_the_interval_from_the_last_write() {
    let dirty = WorkerFlags { dirty: true, shutdown: false };
    // The last write ended 300 ms ago: the saver sleeps until 1000 ms after it.
    assert_eq!(worker_step(dirty, Some(300), 1_000), WorkerStep::WaitFor { ms: 700 });
    // Woken again 200 ms later by another change: still until 1000 ms after it.
    assert_eq!(worker_step(dirty, Some(500), 1_000), WorkerStep::WaitFor { ms: 500 });
    assert_eq!(worker_step(dirty, Some(1_000), 1_000), WorkerStep::Save);
    let closing = WorkerFlags { dirty: true, shutdown: true };
    assert_eq!(worker_step(closing, Some(5_000), 1_000), WorkerStep::Exit);
}

struct RefusingSink;

impl NotificationSink for RefusingSink {
    fn show(&self, _notification: OutgoingNotification) -> Result<(), AppError> {
        Err(AppError::Notification("refused".to_string()))
    }
}

#[test]
fn a_failing_sink_is_still_asked_for_every_planned_notification() {
    let id = ServiceId::new("gmail").expect("valid id");
    let refs: Vec<MessageRef> = (0..3)
        .map(|i| MessageRef { id: format!("m{i}"), from: None, subject: None, link: None })
        .collect();
    let dispatcher = Dispatcher::new(RefusingSink);
    let results = dispatcher.send(&id, "Gmail", true, true, 5, DiffOutcome::NewMessages(refs));
    assert_eq!(results.len(), 3);
    assert!(results.iter().all(|r| r.is_err()));
    let none = dispatcher.send(&id, "Gmail", false, true, 5, DiffOutcome::CountIncrease(2));
    assert!(none.is_empty());
}
