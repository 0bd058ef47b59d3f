use eluma::config::ServiceId;
use eluma::services::slugify;

const MAX_LEN: usize = 48;

fn id(value: &str) -> ServiceId {
    ServiceId::new(value).expect("valid id")
}

#[test]
fn normal_name_lowercases_and_hyphenates() {
    assert_eq!(slugify("Gmail Personal", &[]).as_str(), "gmail-personal");
}

#[test]
fn all_uppercase_is_lowercased() {
    assert_eq!(slugify("ICLOUD", &[]).as_str(), "icloud");
}

#[test]
fn spaces_and_symbols_collapse_to_single_hyphens() {
    assert_eq!(slugify("Hello,   World!!!", &[]).as_str(), "hello-world");
}

#[test]
fn leading_and_trailing_symbols_are_trimmed() {
    assert_eq!(slugify("  -- Gmail -- ", &[]).as_str(), "gmail");
}

#[test]
fn digits_are_kept() {
    assert_eq!(slugify("Gmail 2", &[]).as_str(), "gmail-2");
}

#[test]
fn non_ascii_only_falls_back_to_service() {
    assert_eq!(slugify("日本語", &[]).as_str(), "service");
}

#[test]
fn empty_name_falls_back_to_service() {
    assert_eq!(slugify("", &[]).as_str(), "service");
}

#[test]
fn punctuation_only_falls_back_to_service() {
    assert_eq!(slugify("!!!___...", &[]).as_str(), "service");
}

#[test]
fn collision_appends_dash_2() {
    let existing = [id("gmail")];
    assert_eq!(slugify("Gmail", &existing).as_str(), "gmail-2");
}

#[test]
fn multiple_collisions_increment_the_suffix() {
    let existing = [id("gmail"), id("gmail-2"), id("gmail-3")];
    assert_eq!(slugify("Gmail", &existing).as_str(), "gmail-4");
}

#[test]
fn fallback_base_collision_is_also_numbered() {
    let existing = [id("service")];
    assert_eq!(slugify("!!!", &existing).as_str(), "service-2");
}

#[test]
fn exactly_max_length_is_unchanged() {
    let name = "a".repeat(MAX_LEN);
    let slug = slugify(&name, &[]);
    assert_eq!(slug.as_str(), name);
    assert_eq!(slug.as_str().chars().count(), MAX_LEN);
}

#[test]
fn over_max_length_is_truncated() {
    let name = "a".repeat(MAX_LEN + 10);
    let slug = slugify(&name, &[]);
    assert_eq!(slug.as_str().chars().count(), MAX_LEN);
    assert_eq!(slug.as_str(), "a".repeat(MAX_LEN));
}

#[test]
fn truncation_trims_a_trailing_hyphen_exposed_by_the_cut() {
    let name = format!("{}-rest-of-the-name", "a".repeat(47));
    let slug = slugify(&name, &[]);
    assert_eq!(slug.as_str(), "a".repeat(47));
}

#[test]
fn suffixed_id_at_max_length_truncates_the_base_to_make_room() {
    let long_name = "a".repeat(MAX_LEN);
    let existing = [id(&long_name)];
    let slug = slugify(&long_name, &existing);
    assert_eq!(slug.as_str(), format!("{}-2", "a".repeat(MAX_LEN - 2)));
    assert_eq!(slug.as_str().chars().count(), MAX_LEN);
}

#[test]
fn suffixed_id_stays_within_max_length_for_a_double_digit_suffix() {
    let long_name = "a".repeat(MAX_LEN);
    let mut existing = vec![id(&long_name)];
    for n in 2..=10 {
        let suffix = format!("-{n}");
        let base_len = MAX_LEN - suffix.chars().count();
        existing.push(id(&format!("{}{suffix}", "a".repeat(base_len))));
    }
    let slug = slugify(&long_name, &existing);
    assert_eq!(slug.as_str(), format!("{}-11", "a".repeat(MAX_LEN - 3)));
    assert_eq!(slug.as_str().chars().count(), MAX_LEN);
}

#[test]
fn every_generated_id_passes_service_id_validation() {
    let cases: &[(&str, &[ServiceId])] = &[("Gmail Personal", &[]), ("日本語", &[]), ("", &[]), ("Gmail", &[])];
    for (name, existing) in cases {
        let slug = slugify(name, existing);
        assert!(ServiceId::new(slug.as_str()).is_ok());
    }
}
