use eluma::agent_bridge::{validate, MessageRefDto, ReportError, UnreadReportDto};
use eluma::config::ServiceId;
use eluma::host::service_label;
use eluma::weburl::{parse_url, ParsedUrl};

const SERVICE_ID: &str = "gmail-personal";
const SERVICE_ORIGIN: &str = "https://mail.google.com";

fn base_dto() -> UnreadReportDto {
    UnreadReportDto {
        service_id: SERVICE_ID.to_string(),
        count: Some(3),
        messages: Vec::new(),
        recipe_id: "gmail".to_string(),
        observed_at: 1_700_000_000_000,
        icon_candidates: Vec::new(),
    }
}

fn caller_label() -> String {
    service_label(&ServiceId::new(SERVICE_ID).expect("valid id"))
}

/// The page the calling webview shows: on the service's origin.
fn caller_page() -> ParsedUrl {
    parse_url("https://mail.google.com/mail/u/0/#inbox").expect("valid url")
}

fn lookup(_id: &ServiceId) -> Option<ParsedUrl> {
    Some(parse_url(SERVICE_ORIGIN).expect("valid url"))
}

fn no_service(_id: &ServiceId) -> Option<ParsedUrl> {
    None
}

fn no_message(id: String) -> MessageRefDto {
    MessageRefDto { id, from: None, subject: None, link: None }
}

#[test]
fn accepts_a_minimal_valid_report() {
    let report = validate(base_dto(), &caller_label(), &caller_page(), lookup).expect("should validate");
    assert_eq!(report.service_id().as_str(), SERVICE_ID);
    assert_eq!(report.count(), Some(3));
    assert_eq!(report.recipe_id(), "gmail");
    assert_eq!(report.observed_at(), 1_700_000_000_000);
}

#[test]
fn accepts_null_count() {
    let mut dto = base_dto();
    dto.count = None;
    assert!(validate(dto, &caller_label(), &caller_page(), lookup).is_ok());
}

#[test]
fn accepts_count_at_the_maximum() {
    let mut dto = base_dto();
    dto.count = Some(1_000_000);
    assert!(validate(dto, &caller_label(), &caller_page(), lookup).is_ok());
}

#[test]
fn accepts_a_full_report_with_a_valid_link_and_icon_candidates() {
    let mut dto = base_dto();
    dto.messages = vec![MessageRefDto {
        id: "m1".to_string(),
        from: Some("a@example.com".to_string()),
        subject: Some("hello".to_string()),
        link: Some(format!("{SERVICE_ORIGIN}/mail/u/0/#inbox/abc")),
    }];
    dto.icon_candidates = vec![format!("{SERVICE_ORIGIN}/favicon.ico")];
    let report = validate(dto, &caller_label(), &caller_page(), lookup).expect("should validate");
    assert_eq!(report.icon_candidates().len(), 1);
    assert_eq!(report.messages().len(), 1);
    assert!(report.messages()[0].link.is_some());
}

#[test]
fn rejects_wrong_label() {
    let err = validate(base_dto(), "svc-someone-else", &caller_page(), lookup).unwrap_err();
    assert_eq!(err, ReportError::LabelMismatch);
}

#[test]
fn rejects_malformed_service_id() {
    let mut dto = base_dto();
    dto.service_id = "Not Valid!".to_string();
    let err = validate(dto, "svc-anything", &caller_page(), lookup).unwrap_err();
    assert_eq!(err, ReportError::LabelMismatch);
}

#[test]
fn rejects_unknown_service() {
    let err = validate(base_dto(), &caller_label(), &caller_page(), no_service).unwrap_err();
    assert_eq!(err, ReportError::UnknownService);
}

#[test]
fn rejects_count_over_the_maximum() {
    let mut dto = base_dto();
    dto.count = Some(1_000_001);
    let err = validate(dto, &caller_label(), &caller_page(), lookup).unwrap_err();
    assert_eq!(err, ReportError::CountTooLarge);
}

#[test]
fn a_negative_count_is_accepted_and_carries_no_number() {
    let mut dto = base_dto();
    dto.count = Some(-1);
    let report = validate(dto, &caller_label(), &caller_page(), lookup).expect("a negative count is accepted");
    assert_eq!(report.count(), None);
}

#[test]
fn rejects_more_than_100_messages() {
    let mut dto = base_dto();
    dto.messages = (0..101).map(|i| no_message(format!("m{i}"))).collect();
    let err = validate(dto, &caller_label(), &caller_page(), lookup).unwrap_err();
    assert_eq!(err, ReportError::TooManyMessages);
}

#[test]
fn accepts_exactly_100_messages() {
    let mut dto = base_dto();
    dto.messages = (0..100).map(|i| no_message(format!("m{i}"))).collect();
    assert!(validate(dto, &caller_label(), &caller_page(), lookup).is_ok());
}

#[test]
fn rejects_a_string_over_512_characters() {
    let mut dto = base_dto();
    dto.messages = vec![no_message("a".repeat(513))];
    let err = validate(dto, &caller_label(), &caller_page(), lookup).unwrap_err();
    assert_eq!(err, ReportError::StringTooLong);
}

#[test]
fn accepts_a_string_at_exactly_512_characters() {
    let mut dto = base_dto();
    dto.messages = vec![no_message("a".repeat(512))];
    assert!(validate(dto, &caller_label(), &caller_page(), lookup).is_ok());
}

#[test]
fn rejects_a_non_https_link() {
    let mut dto = base_dto();
    dto.messages = vec![MessageRefDto {
        id: "m1".to_string(),
        from: None,
        subject: None,
        link: Some("http://mail.google.com/inbox".to_string()),
    }];
    let err = validate(dto, &caller_label(), &caller_page(), lookup).unwrap_err();
    assert_eq!(err, ReportError::InvalidLink);
}

#[test]
fn rejects_a_link_on_a_different_origin() {
    let mut dto = base_dto();
    dto.messages = vec![MessageRefDto {
        id: "m1".to_string(),
        from: None,
        subject: None,
        link: Some("https://evil.example.com/inbox".to_string()),
    }];
    let err = validate(dto, &caller_label(), &caller_page(), lookup).unwrap_err();
    assert_eq!(err, ReportError::InvalidLink);
}

#[test]
fn rejects_recipe_id_over_64_characters() {
    let mut dto = base_dto();
    dto.recipe_id = "a".repeat(65);
    let err = validate(dto, &caller_label(), &caller_page(), lookup).unwrap_err();
    assert_eq!(err, ReportError::RecipeIdTooLong);
}

#[test]
fn accepts_recipe_id_at_exactly_64_characters() {
    let mut dto = base_dto();
    dto.recipe_id = "a".repeat(64);
    assert!(validate(dto, &caller_label(), &caller_page(), lookup).is_ok());
}

#[test]
fn rejects_recipe_id_with_uppercase_or_symbols() {
    let mut dto = base_dto();
    dto.recipe_id = "Gmail_v2".to_string();
    let err = validate(dto, &caller_label(), &caller_page(), lookup).unwrap_err();
    assert_eq!(err, ReportError::RecipeIdInvalidChars);
}

#[test]
fn rejects_empty_recipe_id() {
    let mut dto = base_dto();
    dto.recipe_id = String::new();
    let err = validate(dto, &caller_label(), &caller_page(), lookup).unwrap_err();
    assert_eq!(err, ReportError::RecipeIdInvalidChars);
}

#[test]
fn rejects_more_than_8_icon_candidates() {
    let mut dto = base_dto();
    dto.icon_candidates = (0..9).map(|i| format!("{SERVICE_ORIGIN}/icon{i}.png")).collect();
    let err = validate(dto, &caller_label(), &caller_page(), lookup).unwrap_err();
    assert_eq!(err, ReportError::TooManyIconCandidates);
}

#[test]
fn accepts_exactly_8_icon_candidates() {
    let mut dto = base_dto();
    dto.icon_candidates = (0..8).map(|i| format!("{SERVICE_ORIGIN}/icon{i}.png")).collect();
    assert!(validate(dto, &caller_label(), &caller_page(), lookup).is_ok());
}

#[test]
fn rejects_a_non_http_icon_candidate_scheme() {
    let mut dto = base_dto();
    dto.icon_candidates = vec!["ftp://mail.google.com/icon.png".to_string()];
    let err = validate(dto, &caller_label(), &caller_page(), lookup).unwrap_err();
    assert_eq!(err, ReportError::IconCandidateInvalidScheme);
}

#[test]
fn accepts_an_http_icon_candidate() {
    let mut dto = base_dto();
    dto.icon_candidates = vec!["http://mail.google.com/icon.png".to_string()];
    assert!(validate(dto, &caller_label(), &caller_page(), lookup).is_ok());
}

#[test]
fn rejects_an_invalid_icon_candidate_url() {
    let mut dto = base_dto();
    dto.icon_candidates = vec!["not a url".to_string()];
    let err = validate(dto, &caller_label(), &caller_page(), lookup).unwrap_err();
    assert_eq!(err, ReportError::IconCandidateInvalidUrl);
}

fn candidate_error(url: &str) -> ReportError {
    let mut dto = base_dto();
    dto.icon_candidates = vec![url.to_string()];
    validate(dto, &caller_label(), &caller_page(), lookup).unwrap_err()
}

#[test]
fn rejects_loopback_ipv4_icon_candidate() {
    assert_eq!(candidate_error("http://127.0.0.1/icon.png"), ReportError::IconCandidateDisallowedHost);
}

#[test]
fn rejects_private_ipv4_icon_candidate() {
    assert_eq!(candidate_error("http://10.0.0.5/icon.png"), ReportError::IconCandidateDisallowedHost);
}

#[test]
fn rejects_link_local_ipv4_icon_candidate() {
    assert_eq!(candidate_error("http://169.254.1.1/icon.png"), ReportError::IconCandidateDisallowedHost);
}

#[test]
fn rejects_loopback_ipv6_icon_candidate() {
    assert_eq!(candidate_error("http://[::1]/icon.png"), ReportError::IconCandidateDisallowedHost);
}

#[test]
fn rejects_link_local_ipv6_icon_candidate() {
    assert_eq!(candidate_error("http://[fe80::1]/icon.png"), ReportError::IconCandidateDisallowedHost);
}

#[test]
fn rejects_unique_local_ipv6_icon_candidate() {
    assert_eq!(candidate_error("http://[fc00::1]/icon.png"), ReportError::IconCandidateDisallowedHost);
}

#[test]
fn rejects_ipv4_mapped_ipv6_loopback_icon_candidate() {
    assert_eq!(candidate_error("http://[::ffff:127.0.0.1]/icon.png"), ReportError::IconCandidateDisallowedHost);
}

#[test]
fn rejects_ipv4_mapped_ipv6_private_icon_candidate() {
    assert_eq!(candidate_error("http://[::ffff:10.1.2.3]/icon.png"), ReportError::IconCandidateDisallowedHost);
}

#[test]
fn accepts_a_public_ipv4_icon_candidate() {
    let mut dto = base_dto();
    dto.icon_candidates = vec!["http://93.184.216.34/icon.png".to_string()];
    assert!(validate(dto, &caller_label(), &caller_page(), lookup).is_ok());
}

#[test]
fn accepts_a_domain_icon_candidate_without_dns_resolution() {
    let mut dto = base_dto();
    dto.icon_candidates = vec!["https://mail.google.com/favicon.ico".to_string()];
    assert!(validate(dto, &caller_label(), &caller_page(), lookup).is_ok());
}

#[test]
fn report_errors_have_stable_kinds_and_messages() {
    assert_eq!(ReportError::CountTooLarge.kind(), "count_too_large");
    assert_eq!(ReportError::CountTooLarge.message(), "count exceeds the maximum of 1000000");
    assert_eq!(ReportError::IconCandidateDisallowedHost.kind(), "icon_candidate_disallowed_host");
}

#[test]
fn rejects_a_report_from_a_page_on_another_origin() {
    let evil = parse_url("https://evil.example.com/").expect("valid url");
    let err = validate(base_dto(), &caller_label(), &evil, lookup).unwrap_err();
    assert_eq!(err, ReportError::CallerOffOrigin);
    assert_eq!(err.kind(), "caller_off_origin");
}

#[test]
fn rejects_a_report_from_a_page_with_an_opaque_origin() {
    let blank = parse_url("about:blank").expect("valid url");
    let err = validate(base_dto(), &caller_label(), &blank, lookup).unwrap_err();
    assert_eq!(err, ReportError::CallerOffOrigin);
}

#[test]
fn the_label_is_checked_before_the_caller_origin() {
    let evil = parse_url("https://evil.example.com/").expect("valid url");
    let err = validate(base_dto(), "svc-someone-else", &evil, lookup).unwrap_err();
    assert_eq!(err, ReportError::LabelMismatch);
}
