use eluma::config::validate::parse;
use eluma::config::IconSource;
use toml::{Table, Value};

/// The documented example configuration: four services over two profiles.
const DOCUMENTED_EXAMPLE: &str = r#"
version = 1

[settings]
reconcile_interval_seconds = 60   # sweep; observers are the primary signal
notifications = true
notification_batch_threshold = 5
badge_sidebar = true

# ─── Gmail ×2, sharing one Google session ───
[[services]]
id = "gmail-personal"
name = "Personal"
url = "https://mail.google.com/mail/u/me@example.com/"
profile = "default"
notifications = true
icon = { source = "favicon" }

[[services]]
id = "gmail-work"
name = "Work"
url = "https://mail.google.com/mail/u/me@company.com/"
profile = "default"
notifications = true
icon = { source = "favicon" }

# ─── iCloud, its own session ───
[[services]]
id = "icloud"
name = "iCloud"
url = "https://www.icloud.com/mail/"
profile = "isolated"
notifications = true
icon = { source = "file", value = "icons/icloud.png" }

# ─── Outlook.com, its own session ───
[[services]]
id = "outlook"
name = "Outlook"
url = "https://outlook.live.com/mail/0/"
profile = "isolated"
notifications = true
icon = { source = "favicon" }
"#;

/// A minimal single-service fixture used by the invalid-value tests.
/// `services[0].notifications` is deliberately `false`, distinct from
/// `settings.notifications = true`, so tests can target either one by
/// an unambiguous string replacement.
const MINIMAL_VALID_CONFIG: &str = r#"
version = 1

[settings]
reconcile_interval_seconds = 60
notifications = true
notification_batch_threshold = 5
badge_sidebar = true

[[services]]
id = "svc"
name = "Service"
url = "https://mail.example.com/"
profile = "default"
notifications = false
icon = { source = "favicon" }
"#;

const DUPLICATE_ID_CONFIG: &str = r#"
version = 1

[settings]
reconcile_interval_seconds = 60
notifications = true
notification_batch_threshold = 5
badge_sidebar = true

[[services]]
id = "svc"
name = "Service One"
url = "https://mail.example.com/one"
profile = "default"
notifications = true
icon = { source = "favicon" }

[[services]]
id = "svc"
name = "Service Two"
url = "https://mail.example.com/two"
profile = "default"
notifications = true
icon = { source = "favicon" }
"#;

fn test_file() -> &'static str {
    "/tmp/eluma/config.toml"
}

fn replace_once(base: &str, from: &str, to: &str) -> String {
    assert_eq!(
        base.matches(from).count(),
        1,
        "expected exactly one occurrence of {from:?} in fixture"
    );
    base.replacen(from, to, 1)
}

/// Removes a value from a cloned copy of `table`, following `path`
/// (table keys, or array indices given as decimal strings).
fn remove_key(table: &Table, path: &[&str]) -> Table {
    fn remove_nested(value: &mut Value, path: &[&str]) {
        let (head, rest) = match path.split_first() {
            Some(pair) => pair,
            None => return,
        };
        match value {
            Value::Table(t) => {
                if rest.is_empty() {
                    t.remove(*head);
                } else if let Some(child) = t.get_mut(*head) {
                    remove_nested(child, rest);
                }
            }
            Value::Array(a) => {
                if let Ok(index) = head.parse::<usize>() {
                    if let Some(child) = a.get_mut(index) {
                        remove_nested(child, rest);
                    }
                }
            }
            _ => {}
        }
    }

    let mut value = Value::Table(table.clone());
    remove_nested(&mut value, path);
    match value {
        Value::Table(t) => t,
        _ => unreachable!("root value stays a table"),
    }
}

#[test]
fn parses_the_spec_example() {
    let config = parse(DOCUMENTED_EXAMPLE, test_file()).expect("the documented example should parse");

    assert_eq!(config.version, 1);
    assert_eq!(config.services.len(), 4);

    let ids: Vec<&str> = config.services.iter().map(|s| s.id.as_str()).collect();
    assert_eq!(ids, ["gmail-personal", "gmail-work", "icloud", "outlook"]);

    let icloud = &config.services[2];
    assert_eq!(icloud.profile.as_str(), "isolated");
    assert_eq!(
        icloud.icon,
        IconSource::File("icons/icloud.png".to_string())
    );
}

#[test]
fn missing_required_keys_are_named_in_the_error() {
    let base: Table = DOCUMENTED_EXAMPLE.parse().expect("fixture parses as TOML");

    let cases: &[(&[&str], &str)] = &[
        (&["version"], "version"),
        (&["settings"], "settings"),
        (&["services"], "services"),
        (
            &["settings", "reconcile_interval_seconds"],
            "settings.reconcile_interval_seconds",
        ),
        (&["settings", "notifications"], "settings.notifications"),
        (
            &["settings", "notification_batch_threshold"],
            "settings.notification_batch_threshold",
        ),
        (&["settings", "badge_sidebar"], "settings.badge_sidebar"),
        (&["services", "0", "id"], "services[0].id"),
        (&["services", "0", "name"], "services[0].name"),
        (&["services", "0", "url"], "services[0].url"),
        (&["services", "0", "profile"], "services[0].profile"),
        (
            &["services", "0", "notifications"],
            "services[0].notifications",
        ),
        (&["services", "0", "icon"], "services[0].icon"),
        (
            &["services", "2", "icon", "source"],
            "services[2].icon.source",
        ),
        (
            &["services", "2", "icon", "value"],
            "services[2].icon.value",
        ),
    ];

    for (path, expected_key) in cases {
        let modified = remove_key(&base, path);
        let text = toml::to_string(&modified).expect("serialize modified fixture");
        let err =
            parse(&text, test_file()).expect_err(&format!("expected error removing {path:?}"));
        assert_eq!(err.key.as_deref(), Some(*expected_key), "removing {path:?}");
        assert!(
            err.reason.contains("missing required key"),
            "removing {path:?}"
        );
    }
}

#[test]
fn version_must_equal_one() {
    let text = replace_once(MINIMAL_VALID_CONFIG, "version = 1", "version = 2");
    let err = parse(&text, test_file()).expect_err("version 2 should fail");
    assert_eq!(err.key.as_deref(), Some("version"));
    assert!(err.reason.contains("must equal 1"));
}

#[test]
fn version_must_be_an_integer() {
    let text = replace_once(MINIMAL_VALID_CONFIG, "version = 1", r#"version = "1""#);
    let err = parse(&text, test_file()).expect_err("string version should fail");
    assert_eq!(err.key.as_deref(), Some("version"));
}

#[test]
fn validate_service_id_rejects_uppercase() {
    let text = replace_once(MINIMAL_VALID_CONFIG, r#"id = "svc""#, r#"id = "SVC""#);
    let err = parse(&text, test_file()).expect_err("uppercase id should fail");
    assert_eq!(err.key.as_deref(), Some("services[0].id"));
}

#[test]
fn validate_service_id_rejects_empty() {
    let text = replace_once(MINIMAL_VALID_CONFIG, r#"id = "svc""#, r#"id = """#);
    let err = parse(&text, test_file()).expect_err("empty id should fail");
    assert_eq!(err.key.as_deref(), Some("services[0].id"));
}

#[test]
fn service_id_rejects_49_characters() {
    let long = "a".repeat(49);
    let text = replace_once(
        MINIMAL_VALID_CONFIG,
        r#"id = "svc""#,
        &format!(r#"id = "{long}""#),
    );
    let err = parse(&text, test_file()).expect_err("49-char id should fail");
    assert_eq!(err.key.as_deref(), Some("services[0].id"));
}

#[test]
fn duplicate_service_ids_are_rejected() {
    let err = parse(DUPLICATE_ID_CONFIG, test_file()).expect_err("duplicate id should fail");
    assert_eq!(err.key.as_deref(), Some("services[1].id"));
    assert!(err.reason.contains("duplicate"));
}

#[test]
fn service_url_rejects_non_http_scheme() {
    let text = replace_once(
        MINIMAL_VALID_CONFIG,
        r#"url = "https://mail.example.com/""#,
        r#"url = "ftp://mail.example.com/""#,
    );
    let err = parse(&text, test_file()).expect_err("ftp:// url should fail");
    assert_eq!(err.key.as_deref(), Some("services[0].url"));
}

#[test]
fn service_url_rejects_unparsable_value() {
    let text = replace_once(
        MINIMAL_VALID_CONFIG,
        r#"url = "https://mail.example.com/""#,
        r#"url = "not a url""#,
    );
    let err = parse(&text, test_file()).expect_err("unparsable url should fail");
    assert_eq!(err.key.as_deref(), Some("services[0].url"));
}

#[test]
fn profile_name_rejects_invalid_value() {
    let text = replace_once(
        MINIMAL_VALID_CONFIG,
        r#"profile = "default""#,
        r#"profile = "My Profile""#,
    );
    let err = parse(&text, test_file()).expect_err("invalid profile name should fail");
    assert_eq!(err.key.as_deref(), Some("services[0].profile"));
}

#[test]
fn icon_source_rejects_unknown_value() {
    let text = replace_once(
        MINIMAL_VALID_CONFIG,
        r#"icon = { source = "favicon" }"#,
        r#"icon = { source = "gravatar" }"#,
    );
    let err = parse(&text, test_file()).expect_err("unknown icon source should fail");
    assert_eq!(err.key.as_deref(), Some("services[0].icon.source"));
}

#[test]
fn settings_u32_rejects_negative_value() {
    let text = replace_once(
        MINIMAL_VALID_CONFIG,
        "reconcile_interval_seconds = 60",
        "reconcile_interval_seconds = -1",
    );
    let err = parse(&text, test_file()).expect_err("negative u32 should fail");
    assert_eq!(
        err.key.as_deref(),
        Some("settings.reconcile_interval_seconds")
    );
}

#[test]
fn settings_bool_rejects_wrong_type() {
    let text = replace_once(
        MINIMAL_VALID_CONFIG,
        "badge_sidebar = true",
        "badge_sidebar = 1",
    );
    let err = parse(&text, test_file()).expect_err("integer badge_sidebar should fail");
    assert_eq!(err.key.as_deref(), Some("settings.badge_sidebar"));
    assert!(err.reason.contains("boolean"));
}

#[test]
fn syntax_error_has_no_key_and_includes_the_file_path() {
    let file = "/tmp/eluma/broken-config.toml";
    let err = parse("[settings\nversion = 1", file).expect_err("malformed TOML should fail");
    assert_eq!(err.key, None);
    assert!(err.message().contains("/tmp/eluma/broken-config.toml"));
}

fn with_file_icon(value: &str) -> String {
    replace_once(
        MINIMAL_VALID_CONFIG,
        r#"icon = { source = "favicon" }"#,
        &format!(r#"icon = {{ source = "file", value = "{value}" }}"#),
    )
}

#[test]
fn file_icon_value_must_stay_inside_the_data_directory() {
    for value in ["/etc/x.png", "../x.png", "icons/../../x.png", "icons/..", "C:x.png"] {
        let err = parse(&with_file_icon(value), test_file()).expect_err("escaping path should fail");
        assert_eq!(err.key.as_deref(), Some("services[0].icon.value"), "value {value}");
        assert_eq!(err.reason, "must be a relative path inside the data directory, without `..` components");
    }
}

#[test]
fn file_icon_value_inside_the_data_directory_is_accepted() {
    for value in ["icons/gmail.src", "a..b/x.png", "icons/.hidden.png"] {
        let config = parse(&with_file_icon(value), test_file()).expect("relative path inside should parse");
        assert_eq!(config.services[0].icon, IconSource::File(value.to_string()));
    }
}
