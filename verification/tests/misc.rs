use eluma::agent_bridge::{capability_identifier, service_origin, OpaqueOriginError};
use eluma::commands::SettingsPatchDto;
use eluma::config::{IconSource, ServiceId, SettingsPatch};
use eluma::error::AppError;
use eluma::host::service_label;
use eluma::icons::{resolution_order, validate_override_url, IconOverrideError, ResolutionStep};
use eluma::net_guard::{is_disallowed_host, is_disallowed_ip, IpAddress};
use eluma::paths::{
    config_file, icon_cache_file, icon_override_file, icon_override_relative_path, icons_dir, state_file,
};
use eluma::platform::{decide_hold_action, HoldAction};
use eluma::weburl::{parse_url, UrlHost};
use std::path::{Path, PathBuf};

fn id(value: &str) -> ServiceId {
    ServiceId::new(value).expect("valid id")
}

#[test]
fn from_io_error_via_question_mark_operator() {
    fn fails() -> Result<(), AppError> {
        Err(std::io::Error::new(std::io::ErrorKind::PermissionDenied, "nope"))?;
        Ok(())
    }
    let err = fails().expect_err("should fail");
    assert_eq!(err.kind(), "io");
    assert_eq!(err.message(), "io error: nope");
}

#[test]
fn service_label_prefixes_with_svc_dash() {
    let id = ServiceId::new("gmail-personal").expect("valid service id");
    assert_eq!(service_label(&id), "svc-gmail-personal");
}

#[test]
fn capability_identifier_matches_the_webview_label() {
    let service_id = id("gmail-personal");
    assert_eq!(capability_identifier(&service_id), service_label(&service_id));
    assert_eq!(capability_identifier(&service_id), "svc-gmail-personal");
}

#[test]
fn derives_origin_from_https_url_omitting_default_port() {
    let url = parse_url("https://mail.example.com/inbox?x=1").expect("valid url");
    assert_eq!(service_origin(&url).expect("origin"), "https://mail.example.com");
}

#[test]
fn derives_origin_keeping_a_non_default_port() {
    let url = parse_url("https://mail.example.com:8443/inbox").expect("valid url");
    assert_eq!(service_origin(&url).expect("origin"), "https://mail.example.com:8443");
}

#[test]
fn rejects_an_opaque_origin() {
    let url = parse_url("data:text/plain,hello").expect("valid url");
    assert_eq!(service_origin(&url), Err(OpaqueOriginError));
}

#[test]
fn domain_host_is_never_disallowed() {
    assert!(!is_disallowed_host(&UrlHost::Domain("mail.example.com".to_string())));
}

#[test]
fn loopback_private_and_link_local_hosts_are_disallowed() {
    assert!(is_disallowed_host(&UrlHost::Ipv4([127, 0, 0, 1])));
    assert!(is_disallowed_host(&UrlHost::Ipv4([172, 16, 0, 1])));
    assert!(is_disallowed_host(&UrlHost::Ipv4([192, 168, 1, 1])));
    assert!(!is_disallowed_host(&UrlHost::Ipv4([172, 32, 0, 1])));
    assert!(is_disallowed_host(&UrlHost::Ipv6([0, 0, 0, 0, 0, 0, 0, 1])));
    assert!(is_disallowed_host(&UrlHost::Ipv6([0xfe80, 0, 0, 0, 0, 0, 0, 1])));
    assert!(!is_disallowed_host(&UrlHost::Ipv6([0x2001, 0xdb8, 0, 0, 0, 0, 0, 1])));
    assert!(is_disallowed_ip(&IpAddress::V6([0, 0, 0, 0, 0, 0xffff, 0x0a01, 0x0203])));
    assert!(!is_disallowed_ip(&IpAddress::V4([93, 184, 216, 34])));
}

#[test]
fn no_override_and_no_candidates_orders_nothing() {
    assert!(resolution_order(None, &[]).is_empty());
}

#[test]
fn override_file_comes_first_then_candidates_in_order() {
    let a = parse_url("https://a.example/icon.png").expect("valid url");
    let b = parse_url("https://b.example/icon.png").expect("valid url");
    let over = IconSource::File("icons/gmail.src".to_string());
    let steps = resolution_order(Some(&over), &[a.clone(), b.clone()]);
    assert_eq!(
        steps,
        vec![
            ResolutionStep::OverrideFile("icons/gmail.src".to_string()),
            ResolutionStep::Fetch(a.clone()),
            ResolutionStep::Fetch(b.clone())
        ]
    );
    let favicon = resolution_order(Some(&IconSource::Favicon), &[a.clone()]);
    assert_eq!(favicon, vec![ResolutionStep::Fetch(a)]);
}

#[test]
fn override_url_must_be_http_on_a_public_host() {
    let ok = parse_url("https://example.com/icon.png").expect("valid url");
    assert_eq!(validate_override_url(&ok), Ok(()));
    let ftp = parse_url("ftp://example.com/icon.png").expect("valid url");
    assert_eq!(validate_override_url(&ftp), Err(IconOverrideError::InvalidScheme));
    let local = parse_url("http://127.0.0.1/icon.png").expect("valid url");
    assert_eq!(validate_override_url(&local), Err(IconOverrideError::DisallowedHost));
    let app: AppError = IconOverrideError::DisallowedHost.into();
    assert_eq!(app.kind(), "icon");
}

#[test]
fn settings_patch_dto_carries_every_field_through_unchanged() {
    let dto = SettingsPatchDto {
        reconcile_interval_seconds: Some(120),
        notifications: Some(false),
        notification_batch_threshold: Some(10),
        badge_sidebar: Some(false),
    };
    let patch: SettingsPatch = dto.into();
    assert_eq!(patch.reconcile_interval_seconds, dto.reconcile_interval_seconds);
    assert_eq!(patch.notifications, dto.notifications);
    assert_eq!(patch.notification_batch_threshold, dto.notification_batch_threshold);
    assert_eq!(patch.badge_sidebar, dto.badge_sidebar);
}

#[test]
fn zero_to_one_acquires() {
    assert_eq!(decide_hold_action(0, 1), HoldAction::Acquire);
}

#[test]
fn one_to_two_is_noop() {
    assert_eq!(decide_hold_action(1, 2), HoldAction::NoChange);
}

#[test]
fn two_to_one_is_noop() {
    assert_eq!(decide_hold_action(2, 1), HoldAction::NoChange);
}

#[test]
fn one_to_zero_releases() {
    assert_eq!(decide_hold_action(1, 0), HoldAction::Release);
}

#[test]
fn config_file_joins_filename_onto_dir() {
    let dir = "/tmp/eluma/config";
    assert_eq!(PathBuf::from(config_file(dir)), Path::new(dir).join("config.toml"));
}

#[test]
fn state_file_joins_filename_onto_dir() {
    let dir = "/tmp/eluma/data";
    assert_eq!(PathBuf::from(state_file(dir)), Path::new(dir).join("state.json"));
}

#[test]
fn icons_dir_joins_onto_data_dir() {
    let dir = "/tmp/eluma/data";
    assert_eq!(PathBuf::from(icons_dir(dir)), Path::new(dir).join("icons"));
}

#[test]
fn icon_cache_file_is_id_dot_png_under_icons_dir() {
    let dir = "/tmp/eluma/data";
    assert_eq!(PathBuf::from(icon_cache_file(dir, &id("gmail"))), Path::new(dir).join("icons").join("gmail.png"));
}

#[test]
fn icon_override_relative_path_is_id_dot_src_under_icons() {
    assert_eq!(PathBuf::from(icon_override_relative_path(&id("gmail"))), Path::new("icons").join("gmail.src"));
}

#[test]
fn icon_override_file_joins_relative_path_onto_data_dir() {
    let dir = "/tmp/eluma/data";
    assert_eq!(PathBuf::from(icon_override_file(dir, &id("gmail"))), Path::new(dir).join("icons").join("gmail.src"));
}
