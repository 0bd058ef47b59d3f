use eluma::config::{ProfileName, ServiceId};
use eluma::profile::{derive_key, profile_uuid, ProfileKey};

fn profile_name(value: &str) -> ProfileName {
    ProfileName::new(value).expect("valid profile name")
}

fn service_id(value: &str) -> ServiceId {
    ServiceId::new(value).expect("valid service id")
}

#[test]
fn default_key_round_trips() {
    let key = ProfileKey::Default;
    assert_eq!(key.to_key_string(), "default");
    assert_eq!("default".parse::<ProfileKey>().unwrap(), key);
}

#[test]
fn isolated_key_round_trips() {
    let key = ProfileKey::Isolated(service_id("svc-1"));
    assert_eq!(key.to_key_string(), "isolated:svc-1");
    assert_eq!("isolated:svc-1".parse::<ProfileKey>().unwrap(), key);
}

#[test]
fn named_key_round_trips() {
    let key = ProfileKey::Named(profile_name("work"));
    assert_eq!(key.to_key_string(), "named:work");
    assert_eq!("named:work".parse::<ProfileKey>().unwrap(), key);
}

#[test]
fn named_default_is_rejected() {
    assert!("named:default".parse::<ProfileKey>().is_err());
}

#[test]
fn named_isolated_is_rejected() {
    assert!("named:isolated".parse::<ProfileKey>().is_err());
}

#[test]
fn isolated_key_rejects_invalid_service_id() {
    assert!("isolated:Not Valid".parse::<ProfileKey>().is_err());
}

#[test]
fn named_key_rejects_invalid_profile_name() {
    assert!("named:Not Valid".parse::<ProfileKey>().is_err());
}

#[test]
fn unrecognized_prefix_is_rejected() {
    assert!("bogus:foo".parse::<ProfileKey>().is_err());
    assert!("".parse::<ProfileKey>().is_err());
}

#[test]
fn parse_errors_name_the_value_and_the_reason() {
    assert_eq!(
        ProfileKey::parse("named:default").unwrap_err(),
        "invalid profile key `named:default`: `named:default` is reserved for `ProfileKey::Default`, never a named profile"
    );
    assert_eq!(
        ProfileKey::parse("bogus").unwrap_err(),
        "invalid profile key `bogus`: expected `default`, `isolated:<id>`, or `named:<name>`"
    );
}

#[test]
fn derive_key_folds_the_reserved_names() {
    assert_eq!(derive_key(&profile_name("default"), &service_id("svc-1")), ProfileKey::Default);
    assert_eq!(
        derive_key(&profile_name("isolated"), &service_id("svc-1")),
        ProfileKey::Isolated(service_id("svc-1"))
    );
    assert_eq!(derive_key(&profile_name("work"), &service_id("svc-1")), ProfileKey::Named(profile_name("work")));
}

#[test]
fn profile_uuid_is_a_stable_v5_uuid_per_key() {
    let a = profile_uuid(&ProfileKey::Named(profile_name("work")));
    let b = profile_uuid(&ProfileKey::Named(profile_name("work")));
    let c = profile_uuid(&ProfileKey::Isolated(service_id("svc-1")));
    assert_eq!(a, b);
    assert_ne!(a, c);
    assert_eq!(a[6] >> 4, 5);
    assert_ne!(a, [0u8; 16]);
}

use eluma::config::{IconSource, ServiceConfig};
use eluma::profile::{resolve, uuid_still_in_use, ProfileTable};
use eluma::weburl::parse_url;

#[test]
fn default_profile_name_derives_the_default_key() {
    let mut profiles = ProfileTable::new();
    resolve(&profile_name("default"), &service_id("svc-1"), &mut profiles);
    assert!(profiles.get(&ProfileKey::Default).is_some());
}

#[test]
fn isolated_profile_name_derives_a_per_service_key() {
    let mut profiles = ProfileTable::new();
    resolve(&profile_name("isolated"), &service_id("svc-1"), &mut profiles);
    assert!(profiles.get(&ProfileKey::Isolated(service_id("svc-1"))).is_some());
}

#[test]
fn named_profile_name_derives_a_named_key() {
    let mut profiles = ProfileTable::new();
    resolve(&profile_name("work"), &service_id("svc-1"), &mut profiles);
    assert!(profiles.get(&ProfileKey::Named(profile_name("work"))).is_some());
}

#[test]
fn two_services_naming_default_share_one_uuid() {
    let mut profiles = ProfileTable::new();
    let a = resolve(&profile_name("default"), &service_id("svc-a"), &mut profiles);
    let b = resolve(&profile_name("default"), &service_id("svc-b"), &mut profiles);
    assert_eq!(a, b);
    assert_eq!(profiles.len(), 1);
}

#[test]
fn two_services_naming_isolated_get_different_uuids() {
    let mut profiles = ProfileTable::new();
    let a = resolve(&profile_name("isolated"), &service_id("svc-a"), &mut profiles);
    let b = resolve(&profile_name("isolated"), &service_id("svc-b"), &mut profiles);
    assert_ne!(a, b);
    assert_eq!(profiles.len(), 2);
}

#[test]
fn two_services_naming_the_same_named_profile_share_one_uuid() {
    let mut profiles = ProfileTable::new();
    let a = resolve(&profile_name("work"), &service_id("svc-a"), &mut profiles);
    let b = resolve(&profile_name("work"), &service_id("svc-b"), &mut profiles);
    assert_eq!(a, b);
    assert_eq!(profiles.len(), 1);
}

#[test]
fn resolve_is_deterministic_across_independent_states() {
    let mut profiles1 = ProfileTable::new();
    let mut profiles2 = ProfileTable::new();
    let a = resolve(&profile_name("work"), &service_id("svc-1"), &mut profiles1);
    let b = resolve(&profile_name("work"), &service_id("svc-1"), &mut profiles2);
    assert_eq!(a, b);
}

#[test]
fn an_existing_entry_always_wins() {
    let mut profiles = ProfileTable::new();
    profiles.insert(ProfileKey::Default, [7u8; 16]);
    let u = resolve(&profile_name("default"), &service_id("svc-1"), &mut profiles);
    assert_eq!(u, [7u8; 16]);
    assert_eq!(profiles.len(), 1);
}

fn service(id: &str, profile: &str) -> ServiceConfig {
    ServiceConfig {
        id: service_id(id),
        name: id.to_string(),
        url: parse_url("https://mail.example.com/").expect("valid url"),
        profile: profile_name(profile),
        notifications: true,
        icon: IconSource::Favicon,
    }
}

#[test]
fn not_in_use_when_no_remaining_service_resolves_to_it() {
    let services = vec![service("mail", "default"), service("chat", "isolated")];
    let mut profiles = ProfileTable::new();
    profiles.insert(ProfileKey::Default, [1u8; 16]);
    profiles.insert(ProfileKey::Isolated(service_id("chat")), [2u8; 16]);
    assert!(!uuid_still_in_use(&services, &profiles, [3u8; 16]));
}

#[test]
fn in_use_when_a_remaining_service_resolves_to_it() {
    let services = vec![service("gmail", "isolated")];
    let mut profiles = ProfileTable::new();
    profiles.insert(ProfileKey::Isolated(service_id("gmail")), [4u8; 16]);
    assert!(uuid_still_in_use(&services, &profiles, [4u8; 16]));
}

#[test]
fn not_in_use_when_services_list_is_empty() {
    let profiles = ProfileTable::new();
    assert!(!uuid_still_in_use(&[], &profiles, [5u8; 16]));
}

#[test]
fn resolve_produces_a_v5_non_nil_uuid() {
    let mut profiles = ProfileTable::new();
    let u = resolve(&profile_name("isolated"), &service_id("svc-1"), &mut profiles);
    let uuid = uuid::Uuid::from_bytes(u);
    assert_eq!(uuid.get_version_num(), 5);
    assert_ne!(uuid, uuid::Uuid::nil());
}

#[test]
fn resolve_matches_a_known_fixed_value() {
    let mut profiles = ProfileTable::new();
    let u = resolve(&profile_name("default"), &service_id("svc-1"), &mut profiles);
    let namespace = uuid::Uuid::from_bytes(eluma::profile::PROFILE_NAMESPACE);
    assert_eq!(
        uuid::Uuid::from_bytes(u),
        uuid::Uuid::new_v5(&namespace, b"default"),
        "PROFILE_NAMESPACE or the key format changed"
    );
}

#[test]
fn resolve_returns_the_existing_recorded_uuid_unchanged() {
    let mut profiles = ProfileTable::new();
    let pinned = uuid::Uuid::parse_str("11111111-1111-1111-1111-111111111111").unwrap();
    profiles.insert(ProfileKey::Default, *pinned.as_bytes());

    let u = resolve(&profile_name("default"), &service_id("svc-1"), &mut profiles);
    assert_eq!(uuid::Uuid::from_bytes(u), pinned);
    assert_eq!(profiles.len(), 1);
}

#[test]
fn in_use_when_a_shared_named_profile_matches() {
    let uuid = [6u8; 16];
    let services = vec![service("mail", "work"), service("chat", "work")];
    let mut profiles = ProfileTable::new();
    profiles.insert(ProfileKey::Named(profile_name("work")), uuid);

    assert!(uuid_still_in_use(&services, &profiles, uuid));
}

#[test]
fn profile_key_serializes_as_its_display_string() {
    let key = ProfileKey::Isolated(service_id("svc-1"));
    let json = serde_json::to_string(&key.to_key_string()).expect("serialize");
    assert_eq!(json, "\"isolated:svc-1\"");
}

#[test]
fn profile_key_deserializes_from_its_display_string() {
    let text: String = serde_json::from_str("\"named:work\"").expect("deserialize");
    let key = ProfileKey::parse(&text).expect("valid key");
    assert_eq!(key, ProfileKey::Named(profile_name("work")));
}

#[test]
fn profile_key_deserialize_rejects_invalid_string() {
    let text: String = serde_json::from_str("\"named:default\"").expect("a JSON string");
    assert!(ProfileKey::parse(&text).is_err());
}
