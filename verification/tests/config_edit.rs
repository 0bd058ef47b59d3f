use eluma::config::validate::parse;
use eluma::config::edit::accept_edited_text;
use eluma::config::{edit_config_text, ConfigEdit, IconSource, ProfileName, ServiceConfig, ServiceId, ServicePatch, SettingsPatch};
use eluma::weburl::parse_url;

const FILE: &str = "/tmp/eluma-test/config.toml";

const HEADER: &str = r#"version = 1

[settings]
reconcile_interval_seconds = 60   # sweep; observers are the primary signal
notifications = true
notification_batch_threshold = 5
badge_sidebar = true
"#;

const ALPHA_BLOCK: &str = r#"
# ─── alpha, shared session ───
[[services]]
id = "alpha"
name = "Alpha"
url = "https://alpha.example.com/"
profile = "default"
notifications = true
icon = { source = "favicon" }  # alpha uses its favicon
"#;

const BETA_BLOCK: &str = r#"
# ─── beta, isolated ───
[[services]]
id = "beta"
name = "Beta"
url = "https://beta.example.com/"
profile = "isolated"
notifications = false
icon = { source = "file", value = "icons/beta.png" }
"#;

const GAMMA_BLOCK: &str = r#"
# ─── gamma, isolated ───
[[services]]
id = "gamma"
name = "Gamma"
url = "https://gamma.example.com/"
profile = "isolated"
notifications = true
icon = { source = "url", value = "https://gamma.example.com/icon.png" }  # gamma icon
"#;

const MINIMAL_VALID_CONFIG: &str = r#"
version = 1

[settings]
reconcile_interval_seconds = 60
notifications = true
notification_batch_threshold = 5
badge_sidebar = true

[[services]]
id = "svc"
name = "Service"
url = "https://mail.example.com/"
profile = "default"
notifications = false
icon = { source = "favicon" }
"#;

fn round_trip_config() -> String {
    [HEADER, ALPHA_BLOCK, BETA_BLOCK, GAMMA_BLOCK].concat()
}

fn replace_once(base: &str, from: &str, to: &str) -> String {
    assert_eq!(base.matches(from).count(), 1, "expected exactly one `{from}`");
    base.replacen(from, to, 1)
}

fn id(value: &str) -> ServiceId {
    ServiceId::new(value).expect("valid id")
}

fn service(id_value: &str, name: &str, url: &str, profile: &str) -> ServiceConfig {
    ServiceConfig {
        id: id(id_value),
        name: name.to_string(),
        url: parse_url(url).expect("valid url"),
        profile: ProfileName::new(profile).expect("valid profile"),
        notifications: true,
        icon: IconSource::Favicon,
    }
}

fn ids(services: &[ServiceConfig]) -> Vec<&str> {
    services.iter().map(|s| s.id.as_str()).collect()
}

#[test]
fn add_service_appends_after_the_last_one_and_keeps_existing_formatting() {
    let delta = service("delta", "Delta", "https://delta.example.com/", "isolated");
    let (text, result) =
        edit_config_text(FILE, &round_trip_config(), ConfigEdit::AddService(delta)).expect("add should succeed");
    assert_eq!(result.services.len(), 4);
    assert_eq!(result.services[3].id.as_str(), "delta");
    let expected = format!(
        "{}\n[[services]]\nid = \"delta\"\nname = \"Delta\"\nurl = \"https://delta.example.com/\"\nprofile = \"isolated\"\nnotifications = true\nicon = {{ source = \"favicon\" }}\n",
        round_trip_config()
    );
    assert_eq!(text, expected);
    assert_eq!(parse(&text, FILE).expect("reload"), result);
}

#[test]
fn add_service_after_write_initial() {
    let initial = "version = 1\nservices = []\n\n[settings]\nreconcile_interval_seconds = 60\nnotifications = true\nnotification_batch_threshold = 5\nbadge_sidebar = true\n";
    let svc = service("first", "First", "https://first.example.com/", "default");
    let (text, result) = edit_config_text(FILE, initial, ConfigEdit::AddService(svc)).expect("add should succeed");
    assert_eq!(ids(&result.services), ["first"]);
    assert_eq!(parse(&text, FILE).expect("reload"), result);
}

#[test]
fn update_service_changes_only_the_patched_fields_and_keeps_formatting() {
    let patch = ServicePatch { name: Some("Beta Prime".to_string()), ..ServicePatch::default() };
    let (text, result) = edit_config_text(FILE, &round_trip_config(), ConfigEdit::UpdateService(id("beta"), patch))
        .expect("update should succeed");
    assert_eq!(text, replace_once(&round_trip_config(), "name = \"Beta\"", "name = \"Beta Prime\""));
    let beta = result.services.iter().find(|s| s.id.as_str() == "beta").expect("beta still present");
    assert_eq!(beta.name, "Beta Prime");
    assert_eq!(parse(&text, FILE).expect("reload"), result);
}

#[test]
fn update_service_icon_preserves_the_trailing_comment_on_the_icon_line() {
    let patch = ServicePatch { icon: Some(IconSource::Favicon), ..ServicePatch::default() };
    let (text, _) = edit_config_text(FILE, &round_trip_config(), ConfigEdit::UpdateService(id("gamma"), patch))
        .expect("update should succeed");
    let expected = replace_once(
        &round_trip_config(),
        r#"icon = { source = "url", value = "https://gamma.example.com/icon.png" }  # gamma icon"#,
        r#"icon = { source = "favicon" }  # gamma icon"#,
    );
    assert_eq!(text, expected);
}

#[test]
fn update_settings_preserves_the_trailing_comment() {
    let patch = SettingsPatch { reconcile_interval_seconds: Some(120), ..SettingsPatch::default() };
    let (text, result) =
        edit_config_text(FILE, &round_trip_config(), ConfigEdit::UpdateSettings(patch)).expect("update should succeed");
    assert_eq!(result.settings.reconcile_interval_seconds, 120);
    let expected = replace_once(
        &round_trip_config(),
        "reconcile_interval_seconds = 60   # sweep; observers are the primary signal",
        "reconcile_interval_seconds = 120   # sweep; observers are the primary signal",
    );
    assert_eq!(text, expected);
    assert_eq!(parse(&text, FILE).expect("reload"), result);
}

#[test]
fn remove_service_from_the_middle_keeps_the_others_and_their_comments() {
    let (text, result) = edit_config_text(FILE, &round_trip_config(), ConfigEdit::RemoveService(id("beta")))
        .expect("remove should succeed");
    assert_eq!(ids(&result.services), ["alpha", "gamma"]);
    assert_eq!(text, [HEADER, ALPHA_BLOCK, GAMMA_BLOCK].concat());
    assert_eq!(parse(&text, FILE).expect("reload"), result);
}

#[test]
fn remove_last_service_writes_an_empty_services_array() {
    let (text, result) = edit_config_text(FILE, MINIMAL_VALID_CONFIG, ConfigEdit::RemoveService(id("svc")))
        .expect("remove should succeed");
    assert!(result.services.is_empty());
    assert_eq!(parse(&text, FILE).expect("reload"), result);
    assert!(text.contains("services = []"), "expected an empty services array, got:\n{text}");
}

#[test]
fn reorder_moves_each_services_own_comments_and_round_trips_to_original_order() {
    let original = round_trip_config();
    let (text, reordered) =
        edit_config_text(FILE, &original, ConfigEdit::Reorder(vec![id("gamma"), id("alpha"), id("beta")]))
            .expect("reorder should succeed");
    assert_eq!(ids(&reordered.services), ["gamma", "alpha", "beta"]);
    assert_eq!(text, [HEADER, GAMMA_BLOCK, ALPHA_BLOCK, BETA_BLOCK].concat());

    let (back, restored) = edit_config_text(FILE, &text, ConfigEdit::Reorder(vec![id("alpha"), id("beta"), id("gamma")]))
        .expect("reorder back should succeed");
    assert_eq!(ids(&restored.services), ["alpha", "beta", "gamma"]);
    assert_eq!(back, original, "reordering back to the original order must be byte-identical");
}

#[test]
fn update_service_with_an_unknown_id_errors_and_leaves_the_file_unchanged() {
    let err = edit_config_text(
        FILE,
        &round_trip_config(),
        ConfigEdit::UpdateService(id("nonexistent"), ServicePatch::default()),
    )
    .expect_err("unknown id should fail");
    assert!(err.reason.contains("nonexistent"));
    assert_eq!(err.key.as_deref(), Some("services"));
    assert_eq!(err.file, FILE);
}

#[test]
fn remove_service_with_an_unknown_id_errors_and_leaves_the_file_unchanged() {
    let err = edit_config_text(FILE, &round_trip_config(), ConfigEdit::RemoveService(id("nonexistent")))
        .expect_err("unknown id should fail");
    assert_eq!(err.reason, "no service with id `nonexistent`");
}

#[test]
fn reorder_that_is_not_a_permutation_errors_and_leaves_the_file_unchanged() {
    let err = edit_config_text(FILE, &round_trip_config(), ConfigEdit::Reorder(vec![id("beta"), id("alpha")]))
        .expect_err("non-permutation reorder should fail");
    assert!(err.reason.contains("permutation"));
}

#[test]
fn add_service_with_a_duplicate_id_errors_and_leaves_the_file_unchanged() {
    let duplicate = service("alpha", "Alpha Again", "https://alpha2.example.com/", "default");
    let err = edit_config_text(FILE, &round_trip_config(), ConfigEdit::AddService(duplicate))
        .expect_err("duplicate id should fail");
    assert!(err.reason.contains("duplicate"));
}

#[test]
fn apply_on_an_invalid_existing_file_errors_and_leaves_the_file_unchanged() {
    let broken = replace_once(MINIMAL_VALID_CONFIG, r#"url = "https://mail.example.com/""#, r#"url = "ftp://mail.example.com/""#);
    let err = edit_config_text(FILE, &broken, ConfigEdit::RemoveService(id("svc")))
        .expect_err("an invalid existing file must not be edited");
    assert_eq!(err.key.as_deref(), Some("services[0].url"));
}

#[test]
fn update_settings_with_an_unknown_key_shape_cannot_arise_from_a_valid_file() {
    let original = round_trip_config();
    let (text, result) = edit_config_text(FILE, &original, ConfigEdit::UpdateSettings(SettingsPatch::default()))
        .expect("no-op settings patch should succeed");
    assert_eq!(text, original);
    assert_eq!(parse(&text, FILE).expect("reload"), result);
}

#[test]
fn reorder_with_a_no_op_order_round_trips_to_the_same_bytes() {
    let original = round_trip_config();
    let (text, _) = edit_config_text(FILE, &original, ConfigEdit::Reorder(vec![id("alpha"), id("beta"), id("gamma")]))
        .expect("reorder should succeed");
    assert_eq!(text, original);
}

#[test]
fn text_that_is_not_toml_is_rejected_without_a_key() {
    let err = edit_config_text(FILE, "version = = 1", ConfigEdit::RemoveService(id("svc"))).expect_err("not TOML");
    assert_eq!(err.key, None);
    assert_eq!(err.file, FILE);
}

#[test]
fn update_service_url_profile_and_notifications_are_written() {
    let patch = ServicePatch {
        url: Some(parse_url("https://beta2.example.com/").expect("valid url")),
        profile: Some(ProfileName::new("default").expect("valid profile")),
        notifications: Some(true),
        ..ServicePatch::default()
    };
    let (text, result) = edit_config_text(FILE, &round_trip_config(), ConfigEdit::UpdateService(id("beta"), patch))
        .expect("update should succeed");
    let beta = &result.services[1];
    assert_eq!(beta.url.serialization, "https://beta2.example.com/");
    assert_eq!(beta.profile.as_str(), "default");
    assert!(beta.notifications);
    assert!(text.contains("# ─── beta, isolated ───"));
}

#[test]
fn removing_a_service_just_added_gives_back_the_services() {
    let original = round_trip_config();
    let delta = service("delta", "Delta", "https://delta.example.com/", "isolated");
    let (added, _) = edit_config_text(FILE, &original, ConfigEdit::AddService(delta)).expect("add should succeed");
    let (_, removed) = edit_config_text(FILE, &added, ConfigEdit::RemoveService(id("delta"))).expect("remove should succeed");
    assert_eq!(removed, parse(&original, FILE).expect("original parses"));
}

#[test]
fn an_empty_service_patch_keeps_the_text() {
    let original = round_trip_config();
    let (text, _) = edit_config_text(FILE, &original, ConfigEdit::UpdateService(id("alpha"), ServicePatch::default()))
        .expect("empty patch should succeed");
    assert_eq!(text, original);
}

#[test]
fn an_edited_text_is_accepted_only_for_the_expected_configuration() {
    let config = parse(MINIMAL_VALID_CONFIG, FILE).expect("valid");
    let (text, accepted) =
        accept_edited_text(FILE, MINIMAL_VALID_CONFIG.to_string(), 1, config.settings, &config.services).expect("same configuration");
    assert_eq!(text, MINIMAL_VALID_CONFIG);
    assert_eq!(accepted, config);

    let err = accept_edited_text(FILE, MINIMAL_VALID_CONFIG.to_string(), 1, config.settings, &vec![]).expect_err("other services");
    assert_eq!(err.key, None);
    assert_eq!(err.reason, "the edited document does not validate to the edited configuration");

    let err = accept_edited_text(FILE, "version = 2".to_string(), 1, config.settings, &config.services).expect_err("invalid");
    assert_eq!(err.file, FILE);
}
