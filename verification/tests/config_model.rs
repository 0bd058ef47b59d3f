use eluma::config::{key_or_root, Config, ConfigError, ProfileName, ServiceId, Settings};
use eluma::error::AppError;

#[test]
fn service_id_accepts_lowercase_alnum_and_hyphen() {
    assert!(ServiceId::new("gmail-personal").is_ok());
}

#[test]
fn model_service_id_rejects_uppercase() {
    assert!(ServiceId::new("Gmail").is_err());
}

#[test]
fn model_service_id_rejects_empty() {
    assert!(ServiceId::new("").is_err());
}

#[test]
fn service_id_rejects_too_long() {
    let value = "a".repeat(49);
    assert!(ServiceId::new(&value).is_err());
}

#[test]
fn service_id_accepts_max_length() {
    let value = "a".repeat(48);
    assert!(ServiceId::new(&value).is_ok());
}

#[test]
fn profile_name_accepts_default_and_isolated() {
    assert!(ProfileName::new("default").is_ok());
    assert!(ProfileName::new("isolated").is_ok());
    assert!(ProfileName::new("work").is_ok());
}

#[test]
fn profile_name_rejects_invalid_characters() {
    assert!(ProfileName::new("My Profile").is_err());
}

#[test]
fn config_error_display_includes_file_and_key() {
    let err = ConfigError {
        file: "/tmp/eluma/config.toml".to_string(),
        key: Some("services[0].id".to_string()),
        reason: "missing required key".to_string(),
    };
    let message = err.message();
    assert!(message.contains("/tmp/eluma/config.toml"));
    assert!(message.contains("services[0].id"));
    assert!(message.contains("missing required key"));
}

#[test]
fn config_error_display_uses_root_placeholder_without_key() {
    let err = ConfigError {
        file: "/tmp/eluma/config.toml".to_string(),
        key: None,
        reason: "invalid TOML syntax".to_string(),
    };
    let message = err.message();
    assert!(message.contains("/tmp/eluma/config.toml"));
    assert!(message.contains("<root>"));
}

#[test]
fn config_error_converts_to_app_error_with_config_kind() {
    let err = ConfigError {
        file: "/tmp/eluma/config.toml".to_string(),
        key: Some("version".to_string()),
        reason: "must equal 1".to_string(),
    };
    let message = err.message();
    let app_err: AppError = err.into();
    assert_eq!(app_err.kind(), "config");
    assert_eq!(app_err.message(), format!("config error: {message}"));
    assert!(app_err.message().contains("version"));
}

#[test]
fn service_id_errors_explain_the_rule() {
    assert_eq!(ServiceId::new("").unwrap_err(), "must match [a-z0-9-]{1,48} (length 0 is out of range)");
    assert_eq!(ServiceId::new("Gmail").unwrap_err(), "must match [a-z0-9-]{1,48} (found `Gmail`)");
}

#[test]
fn config_error_message_is_file_key_and_reason() {
    let err = ConfigError { file: "c.toml".to_string(), key: None, reason: "bad".to_string() };
    assert_eq!(err.message(), "c.toml: <root>: bad");
    assert_eq!(key_or_root(&Some("k".to_string())), "k");
}

#[test]
fn initial_config_has_the_documented_settings_and_no_services() {
    let c = Config::initial();
    assert_eq!(c.version, 1);
    assert_eq!(
        c.settings,
        Settings {
            reconcile_interval_seconds: 60,
            notifications: true,
            notification_batch_threshold: 5,
            badge_sidebar: true
        }
    );
    assert!(c.services.is_empty());
}
