use sift::config::{AppConfig, NamespaceProfile, ProfileId, ThemePreference};

#[test]
fn defaults_are_sensible() {
    let config = AppConfig::default();
    assert_eq!(config.schema_version, 1);
    assert_eq!(config.ui.peek_batch, 100);
    assert!(config.ui.confirm_delete_typed_name);
    assert!(config.profiles.is_empty());
    assert_eq!(config.ui.theme, ThemePreference::System);
    assert_eq!(config.retry.count, 3);
    assert_eq!(config.retry.backoff_ms, 500);
}

#[test]
fn upsert_replaces_existing_profile() {
    let mut config = AppConfig::default();
    let mut profile = NamespaceProfile::new_connection_string("a".into());
    config.upsert_profile(profile.clone());
    profile.name = "b".into();
    config.upsert_profile(profile.clone());
    assert_eq!(config.profiles.len(), 1);
    assert_eq!(config.profiles[0].name, "b");
}

#[test]
fn lookup_and_removal_by_id() {
    let mut config = AppConfig::default();
    let a = NamespaceProfile::new_connection_string("a".into());
    let b = NamespaceProfile::new_connection_string("b".into());
    config.upsert_profile(a.clone());
    config.upsert_profile(b.clone());
    assert_eq!(config.profile(a.id).unwrap().name, "a");
    assert_eq!(config.profile(b.id).unwrap().name, "b");
    config.remove_profile(a.id);
    assert!(config.profile(a.id).is_none());
    assert_eq!(config.profile(b.id).unwrap().name, "b");
    assert_eq!(config.profiles.len(), 1);
    assert!(config.profile(ProfileId::nil()).is_none());
}

#[test]
fn fresh_profiles_get_distinct_ids() {
    let a = NamespaceProfile::new_connection_string("a".into());
    let b = NamespaceProfile::new_connection_string("a".into());
    assert_ne!(a.id, b.id);
    assert!(a.endpoint.is_none());
}
