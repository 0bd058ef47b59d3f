use eluma::config::ServiceId;
use eluma::idmap::IdMap;
use eluma::liveness::{Action, LivenessMachine, STALE_THRESHOLD_MS, TICK_MS};
use eluma::unread::{AttentionReason, ServiceStatus};

fn id(value: &str) -> ServiceId {
    ServiceId::new(value).expect("valid id")
}

fn statuses(pairs: &[(&str, ServiceStatus)]) -> IdMap<ServiceStatus> {
    let mut map = IdMap::new();
    for (k, v) in pairs {
        map.insert(id(k), *v);
    }
    map
}

const BASE: u64 = 1_000_000;

#[test]
fn threshold_constant_is_sixty_five_seconds() {
    assert_eq!(STALE_THRESHOLD_MS, 65_000);
}

#[test]
fn a_service_first_seen_this_tick_is_not_marked_stale() {
    let mut machine = LivenessMachine::new();
    let s = statuses(&[("gmail", ServiceStatus::Loading)]);
    let actions = machine.tick(BASE, &s);
    assert!(actions.is_empty());
    assert!(machine.is_tracked(&id("gmail")));
}

#[test]
fn exactly_at_the_grace_boundary_is_not_yet_stale() {
    let mut machine = LivenessMachine::new();
    let s = statuses(&[("gmail", ServiceStatus::Loading)]);
    machine.tick(BASE, &s);
    let actions = machine.tick(BASE + STALE_THRESHOLD_MS, &s);
    assert!(actions.is_empty());
}

#[test]
fn one_millisecond_past_the_grace_boundary_is_stale() {
    let mut machine = LivenessMachine::new();
    let s = statuses(&[("gmail", ServiceStatus::Loading)]);
    machine.tick(BASE, &s);
    let actions = machine.tick(BASE + STALE_THRESHOLD_MS + 1, &s);
    assert_eq!(
        actions,
        vec![Action::MarkStale { id: id("gmail") }, Action::Reload { id: id("gmail") }]
    );
}

#[test]
fn ok_status_also_goes_stale_past_the_threshold() {
    let mut machine = LivenessMachine::new();
    let s = statuses(&[("gmail", ServiceStatus::Counted { count: 3 })]);
    machine.tick(BASE, &s);
    let actions = machine.tick(BASE + STALE_THRESHOLD_MS + 1, &s);
    assert_eq!(actions.len(), 2);
}

#[test]
fn needs_attention_reported_none_also_goes_stale_past_the_threshold() {
    let mut machine = LivenessMachine::new();
    let s = statuses(&[(
        "gmail",
        ServiceStatus::NeedsAttention { reason: AttentionReason::ReportedNone },
    )]);
    machine.tick(BASE, &s);
    let actions = machine.tick(BASE + STALE_THRESHOLD_MS + 1, &s);
    assert_eq!(actions.len(), 2);
}

#[test]
fn off_origin_is_exempt_forever() {
    let mut machine = LivenessMachine::new();
    let s = statuses(&[("gmail", ServiceStatus::NeedsAttention { reason: AttentionReason::OffOrigin })]);
    machine.tick(BASE, &s);
    let actions = machine.tick(BASE + STALE_THRESHOLD_MS * 100, &s);
    assert!(actions.is_empty());
}

#[test]
fn create_failed_is_exempt_forever() {
    let mut machine = LivenessMachine::new();
    let s = statuses(&[(
        "gmail",
        ServiceStatus::NeedsAttention { reason: AttentionReason::CreateFailed },
    )]);
    machine.tick(BASE, &s);
    let actions = machine.tick(BASE + STALE_THRESHOLD_MS * 100, &s);
    assert!(actions.is_empty());
}

#[test]
fn already_stale_status_does_not_emit_mark_stale_again() {
    let mut machine = LivenessMachine::new();
    let s = statuses(&[("gmail", ServiceStatus::Stale)]);
    machine.tick(BASE, &s);
    let actions = machine.tick(BASE + STALE_THRESHOLD_MS * 100, &s);
    assert!(actions.is_empty());
}

#[test]
fn reload_then_recreate_after_two_more_ticks() {
    let mut machine = LivenessMachine::new();
    let s = statuses(&[("gmail", ServiceStatus::Loading)]);
    machine.tick(BASE, &s);

    let t1 = BASE + STALE_THRESHOLD_MS + 1;
    let actions = machine.tick(t1, &s);
    assert_eq!(
        actions,
        vec![Action::MarkStale { id: id("gmail") }, Action::Reload { id: id("gmail") }]
    );

    let stale = statuses(&[("gmail", ServiceStatus::Stale)]);
    let t2 = t1 + TICK_MS;
    let actions = machine.tick(t2, &stale);
    assert!(actions.is_empty());

    let t3 = t2 + TICK_MS;
    let actions = machine.tick(t3, &stale);
    assert_eq!(actions, vec![Action::Recreate { id: id("gmail") }]);

    let t4 = t3 + TICK_MS;
    let actions = machine.tick(t4, &stale);
    assert!(actions.is_empty());
}

#[test]
fn off_origin_during_reloaded_abandons_the_countdown_and_never_recreates() {
    let mut machine = LivenessMachine::new();
    let s = statuses(&[("gmail", ServiceStatus::Loading)]);
    machine.tick(BASE, &s);

    let t1 = BASE + STALE_THRESHOLD_MS + 1;
    assert_eq!(machine.tick(t1, &s).len(), 2);

    let off_origin = statuses(&[("gmail", ServiceStatus::NeedsAttention { reason: AttentionReason::OffOrigin })]);
    let t2 = t1 + TICK_MS;
    assert!(machine.tick(t2, &off_origin).is_empty());
    let t3 = t2 + TICK_MS;
    assert!(machine.tick(t3, &off_origin).is_empty());
    let t4 = t3 + TICK_MS;
    assert!(machine.tick(t4, &off_origin).is_empty());
}

#[test]
fn create_failed_during_reloaded_abandons_the_countdown_and_never_recreates() {
    let mut machine = LivenessMachine::new();
    let s = statuses(&[("gmail", ServiceStatus::Loading)]);
    machine.tick(BASE, &s);

    let t1 = BASE + STALE_THRESHOLD_MS + 1;
    assert_eq!(machine.tick(t1, &s).len(), 2);

    let create_failed = statuses(&[(
        "gmail",
        ServiceStatus::NeedsAttention { reason: AttentionReason::CreateFailed },
    )]);
    let t2 = t1 + TICK_MS;
    assert!(machine.tick(t2, &create_failed).is_empty());
    let t3 = t2 + TICK_MS;
    assert!(machine.tick(t3, &create_failed).is_empty());
}

#[test]
fn a_report_arriving_mid_episode_resets_everything() {
    let mut machine = LivenessMachine::new();
    let s = statuses(&[("gmail", ServiceStatus::Loading)]);
    machine.tick(BASE, &s);

    let t1 = BASE + STALE_THRESHOLD_MS + 1;
    let actions = machine.tick(t1, &s);
    assert_eq!(actions.len(), 2);

    let report_time = t1 + TICK_MS;
    machine.touch(&id("gmail"), report_time);

    let ok = statuses(&[("gmail", ServiceStatus::Counted { count: 1 })]);
    let just_under = report_time + STALE_THRESHOLD_MS;
    assert!(machine.tick(just_under, &ok).is_empty());

    let just_over = report_time + STALE_THRESHOLD_MS + 1;
    let actions = machine.tick(just_over, &ok);
    assert_eq!(actions.len(), 2);
}

#[test]
fn staleness_counter_increments_once_per_stale_episode() {
    let mut machine = LivenessMachine::new();
    let s = statuses(&[("gmail", ServiceStatus::Loading)]);
    machine.tick(BASE, &s);

    let t1 = BASE + STALE_THRESHOLD_MS + 1;
    let mark_stale_count =
        |actions: &[Action]| actions.iter().filter(|a| matches!(a, Action::MarkStale { .. })).count();
    assert_eq!(mark_stale_count(&machine.tick(t1, &s)), 1);

    let stale = statuses(&[("gmail", ServiceStatus::Stale)]);
    assert_eq!(mark_stale_count(&machine.tick(t1 + TICK_MS, &stale)), 0);
    assert_eq!(mark_stale_count(&machine.tick(t1 + 2 * TICK_MS, &stale)), 0);

    let recovered_at = t1 + 2 * TICK_MS;
    machine.touch(&id("gmail"), recovered_at);
    let ok = statuses(&[("gmail", ServiceStatus::Counted { count: 1 })]);
    let t2 = recovered_at + STALE_THRESHOLD_MS + 1;
    assert_eq!(mark_stale_count(&machine.tick(t2, &ok)), 1);
}

#[test]
fn remove_stops_tracking_a_service() {
    let mut machine = LivenessMachine::new();
    let s = statuses(&[("gmail", ServiceStatus::Loading)]);
    machine.tick(BASE, &s);
    assert!(machine.is_tracked(&id("gmail")));

    machine.remove(&id("gmail"));
    assert!(!machine.is_tracked(&id("gmail")));
}

#[test]
fn a_service_no_longer_in_statuses_is_dropped_by_tick() {
    let mut machine = LivenessMachine::new();
    let s = statuses(&[("gmail", ServiceStatus::Loading)]);
    machine.tick(BASE, &s);
    assert!(machine.is_tracked(&id("gmail")));

    let empty = IdMap::new();
    machine.tick(BASE + 1, &empty);
    assert!(!machine.is_tracked(&id("gmail")));
}

#[test]
fn touch_registers_a_previously_unknown_service() {
    let mut machine = LivenessMachine::new();
    machine.touch(&id("gmail"), BASE);
    assert!(machine.is_tracked(&id("gmail")));
}

#[test]
fn generation_is_none_for_an_untracked_service() {
    let machine = LivenessMachine::new();
    assert_eq!(machine.generation(&id("gmail")), None);
}

#[test]
fn touch_bumps_the_generation_each_time() {
    let mut machine = LivenessMachine::new();
    machine.touch(&id("gmail"), BASE);
    let g0 = machine.generation(&id("gmail")).expect("tracked");

    machine.touch(&id("gmail"), BASE + 1);
    let g1 = machine.generation(&id("gmail")).expect("tracked");
    assert_ne!(g0, g1);

    machine.touch(&id("gmail"), BASE + 2);
    let g2 = machine.generation(&id("gmail")).expect("tracked");
    assert_ne!(g1, g2);
}

#[test]
fn tick_does_not_bump_the_generation_for_its_own_transitions() {
    let mut machine = LivenessMachine::new();
    let s = statuses(&[("gmail", ServiceStatus::Loading)]);
    machine.tick(BASE, &s);
    let g0 = machine.generation(&id("gmail")).expect("tracked");

    let t1 = BASE + STALE_THRESHOLD_MS + 1;
    machine.tick(t1, &s);
    assert_eq!(machine.generation(&id("gmail")), Some(g0));

    let stale = statuses(&[("gmail", ServiceStatus::Stale)]);
    machine.tick(t1 + TICK_MS, &stale);
    machine.tick(t1 + 2 * TICK_MS, &stale);
    assert_eq!(machine.generation(&id("gmail")), Some(g0));
}

#[test]
fn remove_makes_the_generation_none_again() {
    let mut machine = LivenessMachine::new();
    machine.touch(&id("gmail"), BASE);
    assert!(machine.generation(&id("gmail")).is_some());

    machine.remove(&id("gmail"));
    assert_eq!(machine.generation(&id("gmail")), None);
}

#[test]
fn multiple_services_are_evaluated_independently() {
    let mut machine = LivenessMachine::new();
    let s = statuses(&[("gmail", ServiceStatus::Loading), ("icloud", ServiceStatus::Loading)]);
    machine.tick(BASE, &s);

    machine.touch(&id("icloud"), BASE + TICK_MS);

    let t1 = BASE + STALE_THRESHOLD_MS + 1;
    let actions = machine.tick(t1, &s);
    assert_eq!(
        actions,
        vec![Action::MarkStale { id: id("gmail") }, Action::Reload { id: id("gmail") }]
    );
}

#[test]
fn touch_never_moves_the_last_report_time_backwards() {
    let mut machine = LivenessMachine::new();
    let id = ServiceId::new("svc-1").expect("valid id");
    machine.touch(&id, 100_000);
    machine.touch(&id, 50_000);
    let mut statuses = IdMap::new();
    statuses.insert(id.clone(), ServiceStatus::Counted { count: 1 });
    assert!(machine.tick(165_000, &statuses).is_empty());
}

#[test]
fn tick_lists_actions_in_increasing_id_order() {
    let mut machine = LivenessMachine::new();
    let s = statuses(&[("zeta", ServiceStatus::Loading), ("alpha", ServiceStatus::Loading)]);
    machine.tick(BASE, &s);
    let actions = machine.tick(BASE + STALE_THRESHOLD_MS + 1, &s);
    assert_eq!(
        actions,
        vec![
            Action::MarkStale { id: id("alpha") },
            Action::Reload { id: id("alpha") },
            Action::MarkStale { id: id("zeta") },
            Action::Reload { id: id("zeta") },
        ]
    );
}
