use std::collections::VecDeque;

use eluma::agent_bridge::capability::{build_injection_script, REPORT_INTERVAL_MS};
use eluma::config::{IconSource, ProfileName, ServiceConfig, ServiceId};
use eluma::icons::fetch::{
    allowed_addresses, chunk_fits, check_initial_destination, declared_length_ok, redirect_decision, RedirectRefusal,
    MAX_REDIRECTS,
};
use eluma::icons::FetchError;
use eluma::net_guard::{is_disallowed_host, is_disallowed_ip, IpAddress};
use eluma::profile::{ProfileKey, ProfileTable};
use eluma::services::{profile_data_to_remove, ServiceBook, StartupActivation};
use eluma::state::{SeenRing, SEEN_RING_CAPACITY};
use eluma::weburl::{parse_url, ParsedUrl, UrlHost};

const AGENT_JS: &str = "(function () { window.__elumaAgentLoaded = true; })();\n";

fn id(value: &str) -> ServiceId {
    ServiceId::new(value).expect("valid service id")
}

fn url(value: &str) -> ParsedUrl {
    parse_url(value).expect("valid url")
}

fn service(id_text: &str, profile: &str) -> ServiceConfig {
    ServiceConfig {
        id: id(id_text),
        name: id_text.to_string(),
        url: url("https://mail.example.com/"),
        profile: ProfileName::new(profile).expect("valid profile"),
        notifications: true,
        icon: IconSource::Favicon,
    }
}

// --- injection script ---------------------------------------------------

#[test]
fn injection_script_has_the_expected_shape() {
    let service_id = id("gmail-personal");
    let url = url("https://mail.google.com/mail/u/0/");
    let script = build_injection_script(&service_id, &url, 60, AGENT_JS).expect("build script");

    let expected_prefix = "window.__ELUMA__ = ";
    assert!(script.starts_with(expected_prefix));
    assert!(script.ends_with(AGENT_JS), "script must end with AGENT_JS verbatim");

    let json_part = script
        .strip_prefix(expected_prefix)
        .and_then(|rest| rest.split_once(";\n"))
        .map(|(json, _agent)| json)
        .expect("script has `window.__ELUMA__ = {json};\\n{AGENT_JS}` shape");

    let value: serde_json::Value = serde_json::from_str(json_part).expect("valid json");
    assert_eq!(value["serviceId"], "gmail-personal");
    assert_eq!(value["serviceUrl"], "https://mail.google.com/mail/u/0/");
    assert_eq!(value["reportIntervalMs"], REPORT_INTERVAL_MS);
    assert_eq!(value["reconcileIntervalMs"], 60_000);

    let obj = value.as_object().expect("object");
    let mut keys: Vec<&str> = obj.keys().map(String::as_str).collect();
    keys.sort_unstable();
    assert_eq!(keys, vec!["reconcileIntervalMs", "reportIntervalMs", "serviceId", "serviceUrl"]);
}

#[test]
fn reconcile_interval_seconds_converts_to_milliseconds() {
    let service_id = id("icloud");
    let url = url("https://www.icloud.com/mail");
    let script = build_injection_script(&service_id, &url, 1, AGENT_JS).expect("build script");
    assert!(script.contains("\"reconcileIntervalMs\":1000"));
}

#[test]
fn injection_script_never_duplicates_agent_js_content() {
    let service_id = id("gmail-personal");
    let url = url("https://mail.google.com/");
    let script = build_injection_script(&service_id, &url, 30, AGENT_JS).expect("build script");
    assert_eq!(script.matches(AGENT_JS).count(), 1);
}

#[test]
fn injection_script_json_is_compact_and_in_declaration_order() {
    let script = build_injection_script(&id("chat"), &url("https://chat.example.com/a"), 15, "X").expect("build script");
    assert_eq!(
        script,
        "window.__ELUMA__ = {\"serviceId\":\"chat\",\"serviceUrl\":\"https://chat.example.com/a\",\
         \"reportIntervalMs\":30000,\"reconcileIntervalMs\":15000};\nX"
    );
}

// --- seen ring capacity -------------------------------------------------

#[test]
fn seen_ring_at_capacity_deserializes_ok() {
    let ids: VecDeque<String> = (0..SEEN_RING_CAPACITY).map(|i| i.to_string()).collect();
    let ring = SeenRing::from_ids(ids).expect("ring at capacity");
    assert_eq!(ring.0.len(), SEEN_RING_CAPACITY);
}

#[test]
fn seen_ring_over_capacity_is_deserialization_error() {
    let ids: VecDeque<String> = (0..=SEEN_RING_CAPACITY).map(|i| i.to_string()).collect();
    let err = SeenRing::from_ids(ids).expect_err("should fail");
    assert!(err.contains("exceeding capacity"));
    assert_eq!(err, "seen ring has 501 entries, exceeding capacity of 500");
}

// --- address checks -----------------------------------------------------

#[test]
fn loopback_ipv4_host_is_disallowed() {
    assert!(is_disallowed_host(&UrlHost::Ipv4([127, 0, 0, 1])));
}

#[test]
fn private_ipv4_host_is_disallowed() {
    assert!(is_disallowed_host(&UrlHost::Ipv4([10, 0, 0, 5])));
}

#[test]
fn public_ipv4_host_is_allowed() {
    assert!(!is_disallowed_host(&UrlHost::Ipv4([93, 184, 216, 34])));
}

#[test]
fn loopback_ip_addr_is_disallowed() {
    assert!(is_disallowed_ip(&IpAddress::V4([127, 0, 0, 1])));
}

#[test]
fn link_local_ipv6_ip_addr_is_disallowed() {
    assert!(is_disallowed_ip(&IpAddress::V6([0xfe80, 0, 0, 0, 0, 0, 0, 1])));
}

#[test]
fn public_ip_addr_is_allowed() {
    assert!(!is_disallowed_ip(&IpAddress::V4([93, 184, 216, 34])));
}

// --- download rules -----------------------------------------------------

#[test]
fn rejects_a_non_http_scheme_before_connecting() {
    assert_eq!(check_initial_destination(&url("ftp://example.com/icon.png")), Err(FetchError::InvalidScheme));
}

#[test]
fn rejects_a_literal_loopback_host_before_connecting() {
    assert_eq!(check_initial_destination(&url("http://127.0.0.1/icon.png")), Err(FetchError::DisallowedHost));
}

#[test]
fn accepts_a_public_https_destination() {
    assert_eq!(check_initial_destination(&url("https://example.com/favicon.ico")), Ok(()));
}

#[test]
fn rejects_a_redirect_to_a_loopback_destination() {
    assert_eq!(
        redirect_decision(0, &url("http://127.0.0.1:8080/icon.png")),
        Err(RedirectRefusal::DisallowedDestination)
    );
}

#[test]
fn redirects_stop_after_the_limit() {
    let target = url("https://example.com/icon.png");
    assert_eq!(redirect_decision(MAX_REDIRECTS - 1, &target), Ok(()));
    assert_eq!(redirect_decision(MAX_REDIRECTS, &target), Err(RedirectRefusal::TooManyRedirects));
}

#[test]
fn redirects_to_other_schemes_are_refused() {
    assert_eq!(redirect_decision(1, &url("file:///etc/passwd")), Err(RedirectRefusal::NotWebScheme));
}

#[test]
fn resolved_addresses_keep_only_the_allowed_ones_in_order() {
    let addrs = [
        IpAddress::V4([127, 0, 0, 1]),
        IpAddress::V4([93, 184, 216, 34]),
        IpAddress::V6([0xfe80, 0, 0, 0, 0, 0, 0, 1]),
        IpAddress::V4([1, 1, 1, 1]),
    ];
    let kept = allowed_addresses(&addrs);
    assert_eq!(kept.len(), 2);
    assert!(matches!(kept[0], IpAddress::V4([93, 184, 216, 34])));
    assert!(matches!(kept[1], IpAddress::V4([1, 1, 1, 1])));
}

#[test]
fn rejects_a_content_length_over_the_cap() {
    assert!(declared_length_ok(Some(1024 * 1024)));
    assert!(!declared_length_ok(Some(1024 * 1024 + 1)));
    assert!(declared_length_ok(None));
}

#[test]
fn rejects_a_body_over_the_cap_even_without_content_length() {
    assert!(chunk_fits(1024 * 1024 - 10, 10));
    assert!(!chunk_fits(1024 * 1024 - 10, 11));
    assert!(!chunk_fits(u64::MAX, 1));
}

// --- service bookkeeping -------------------------------------------------

#[test]
fn startup_activates_the_first_created_service_only_once() {
    let mut book = ServiceBook::new();
    let a = id("a");
    let b = id("b");
    assert_eq!(book.startup_activation(&a), StartupActivation::NotEligible);
    book.record_created(&a);
    assert_eq!(book.startup_activation(&a), StartupActivation::Activate);
    book.set_active(&a);
    book.record_created(&b);
    assert_eq!(book.startup_activation(&b), StartupActivation::Settled);
}

#[test]
fn destroying_the_active_service_activates_the_first_remaining_in_sidebar_order() {
    let services = vec![service("a", "default"), service("b", "default"), service("c", "default")];
    let mut book = ServiceBook::new();
    book.record_created(&id("c"));
    book.record_created(&id("a"));
    book.set_active(&id("a"));
    let was_active = book.record_destroyed(&id("a"));
    assert!(was_active);
    assert!(book.active().is_none());
    let remaining = vec![service("b", "default"), service("c", "default")];
    assert_eq!(book.next_active(&remaining), Some(id("c")));
    assert_eq!(book.next_active(&services[..1]), None);
}

#[test]
fn destroying_a_background_service_keeps_the_active_one() {
    let mut book = ServiceBook::new();
    book.record_created(&id("a"));
    book.record_created(&id("b"));
    book.set_active(&id("a"));
    assert!(!book.record_destroyed(&id("b")));
    assert_eq!(book.active(), Some(&id("a")));
    assert!(!book.is_created(&id("b")));
}

#[test]
fn create_errors_are_recorded_and_cleared_by_a_later_success() {
    let mut book = ServiceBook::new();
    book.record_create_error(&id("a"), "boom".to_string());
    assert_eq!(book.create_error(&id("a")).map(String::as_str), Some("boom"));
    book.record_torn_down(&id("a"));
    assert_eq!(book.create_error(&id("a")).map(String::as_str), Some("boom"));
    book.record_created(&id("a"));
    assert!(book.create_error(&id("a")).is_none());
}

#[test]
fn create_target_skips_unknown_and_already_created_services() {
    let services = vec![service("a", "default"), service("b", "work")];
    let mut book = ServiceBook::new();
    assert_eq!(book.create_target(&services, &id("b")).map(|s| s.name.as_str()), Some("b"));
    assert!(book.create_target(&services, &id("zzz")).is_none());
    book.record_created(&id("b"));
    assert!(book.create_target(&services, &id("b")).is_none());
}

#[test]
fn pending_services_leave_the_queue_in_order() {
    let services = vec![service("a", "default"), service("b", "default"), service("c", "default")];
    let mut book = ServiceBook::new();
    book.start_pending(&services);
    book.finish_pending(&id("b"));
    book.finish_pending(&id("zzz"));
    assert_eq!(book.pending(), &[id("a"), id("c")][..]);
    book.finish_pending(&id("a"));
    book.finish_pending(&id("c"));
    assert!(book.pending().is_empty());
}

#[test]
fn granted_origins_are_remembered_per_service() {
    let mut book = ServiceBook::new();
    assert!(!book.origin_granted(&id("a"), "https://mail.example.com"));
    book.record_granted(&id("a"), "https://mail.example.com".to_string());
    assert!(book.origin_granted(&id("a"), "https://mail.example.com"));
    assert!(!book.origin_granted(&id("a"), "https://other.example.com"));
    assert!(!book.origin_granted(&id("b"), "https://mail.example.com"));
}

#[test]
fn profile_data_is_removed_only_for_a_confirmed_isolated_profile_no_longer_in_use() {
    let gone = id("gmail");
    let mut profiles = ProfileTable::new();
    profiles.insert(ProfileKey::Isolated(gone.clone()), [9u8; 16]);
    profiles.insert(ProfileKey::Default, [1u8; 16]);
    let isolated = ProfileName::new("isolated").expect("valid profile");
    let default = ProfileName::new("default").expect("valid profile");
    let remaining = vec![service("chat", "default")];

    assert_eq!(profile_data_to_remove(true, Some(&isolated), &gone, &remaining, &profiles), Some([9u8; 16]));
    assert_eq!(profile_data_to_remove(false, Some(&isolated), &gone, &remaining, &profiles), None);
    assert_eq!(profile_data_to_remove(true, Some(&default), &gone, &remaining, &profiles), None);
    assert_eq!(profile_data_to_remove(true, None, &gone, &remaining, &profiles), None);
    assert_eq!(profile_data_to_remove(true, Some(&isolated), &id("never"), &remaining, &profiles), None);

    let readded = vec![service("gmail", "isolated")];
    assert_eq!(profile_data_to_remove(true, Some(&isolated), &gone, &readded, &profiles), None);
}

// --- background saver -----------------------------------------------------

use eluma::state::{worker_step, WorkerFlags, WorkerStep};

#[test]
fn saver_exits_on_shutdown_even_with_a_pending_change() {
    let flags = WorkerFlags { dirty: true, shutdown: true };
    assert_eq!(worker_step(flags, None, 1000), WorkerStep::Exit);
}

#[test]
fn saver_sleeps_without_a_pending_change() {
    let flags = WorkerFlags { dirty: false, shutdown: false };
    assert_eq!(worker_step(flags, Some(5), 1000), WorkerStep::WaitForChange);
}

#[test]
fn saver_debounces_to_one_write_per_interval() {
    let flags = WorkerFlags { dirty: true, shutdown: false };
    assert_eq!(worker_step(flags, None, 1000), WorkerStep::Save);
    assert_eq!(worker_step(flags, Some(250), 1000), WorkerStep::WaitFor { ms: 750 });
    assert_eq!(worker_step(flags, Some(1000), 1000), WorkerStep::Save);
}

// --- icon bookkeeping -------------------------------------------------------

use eluma::icons::{canvas_offsets, IconBook};

#[test]
fn record_candidates_reports_resolution_needed_only_without_a_cache() {
    let mut book = IconBook::new();
    let gmail = id("gmail");
    assert!(!book.record_candidates(&gmail, vec![url("https://mail.example.com/favicon.ico")], true));
    assert!(book.record_candidates(&gmail, vec![url("https://mail.example.com/favicon.ico")], false));
    assert_eq!(book.known_candidates(&gmail).len(), 1);
}

#[test]
fn record_candidates_does_not_trigger_twice_while_already_resolving() {
    let mut book = IconBook::new();
    let gmail = id("gmail");
    assert!(book.record_candidates(&gmail, vec![], false));
    assert!(!book.record_candidates(&gmail, vec![], false));
    book.end_resolving(&gmail);
    assert!(book.record_candidates(&gmail, vec![], false));
}

#[test]
fn forget_removes_cache_override_and_candidates() {
    let mut book = IconBook::new();
    let gmail = id("gmail");
    book.record_candidates(&gmail, vec![url("https://mail.example.com/a.png")], false);
    book.forget(&gmail);
    assert!(book.known_candidates(&gmail).is_empty());
    assert!(book.begin_resolving(&gmail));
}

#[test]
fn smaller_images_are_centred_on_the_canvas() {
    assert_eq!(canvas_offsets(128, 128), (0, 0));
    assert_eq!(canvas_offsets(128, 64), (0, 32));
    assert_eq!(canvas_offsets(31, 200), (48, 0));
}
