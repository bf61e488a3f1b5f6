use sift::config::ProfileId;
use sift::secrets::{
    KeyringFailure, KeyringStore, SecretError, SecretKind, SecretRef, SecretStore, SecretString,
    delete_outcome, get_outcome, store_failure,
};

#[test]
fn secret_string_debug_is_redacted() {
    let secret = SecretString::from_str("super-secret");
    assert_eq!(secret.redacted(), "SecretString(<redacted>)");
    assert_eq!(secret.expose(), "super-secret");
}

#[test]
fn secret_ref_account_is_stable() {
    let id = ProfileId::nil();
    let key = SecretRef::new(id, SecretKind::ConnectionString);
    assert_eq!(key.account(), "00000000-0000-0000-0000-000000000000:connection_string");
}

#[test]
fn account_uses_the_hyphenated_uuid() {
    let id = ProfileId { value: 0x0123_4567_89ab_cdef_fedc_ba98_7654_3210 };
    let key = SecretRef::new(id, SecretKind::SasKey);
    assert_eq!(key.account(), "01234567-89ab-cdef-fedc-ba9876543210:sas_key");
    let uuid = uuid::Uuid::from_u128(id.value);
    assert_eq!(key.account(), format!("{uuid}:sas_key"));
    assert_eq!(SecretKind::ClientSecret.as_str(), "client_secret");
}

#[test]
fn secrets_copy_and_report_emptiness() {
    let a = SecretString::new(String::new());
    assert!(a.is_empty());
    let b = SecretString::from_str("x").duplicate();
    assert_eq!(b.expose(), "x");
    assert!(!b.is_empty());
    assert_eq!(SecretError::Store("locked".into()).message(), "secret store error: locked");
}

#[test]
fn store_reads_map_a_missing_entry_to_no_secret() {
    let got = get_outcome(Ok("value".to_owned())).unwrap().unwrap();
    assert_eq!(got.expose(), "value");
    assert!(get_outcome(Err(KeyringFailure::NoEntry("none".to_owned()))).unwrap().is_none());
    assert_eq!(
        get_outcome(Err(KeyringFailure::Other("locked".to_owned()))).err(),
        Some(SecretError::Store("locked".to_owned()))
    );
}

#[test]
fn store_deletes_of_missing_entries_succeed() {
    assert_eq!(delete_outcome(Ok(())), Ok(()));
    assert_eq!(delete_outcome(Err(KeyringFailure::NoEntry("none".to_owned()))), Ok(()));
    assert_eq!(
        delete_outcome(Err(KeyringFailure::Other("denied".to_owned()))),
        Err(SecretError::Store("denied".to_owned()))
    );
    assert_eq!(
        store_failure(KeyringFailure::NoEntry("gone".to_owned())),
        SecretError::Store("gone".to_owned())
    );
}

#[test]
fn keyring_store_names_the_platform_store() {
    assert_eq!(KeyringStore::for_platform("linux").backend_name(), "Secret Service");
    assert_eq!(KeyringStore::for_platform("windows").backend_name(), "Windows Credential Manager");
    assert_eq!(KeyringStore::for_platform("macos").backend_name(), "macOS Keychain");
}

#[test]
fn random_profile_ids_are_version_4_uuids() {
    let id = ProfileId::new_v4();
    assert_eq!(id.value & 0xF000_C000_0000_0000_0000, 0x4000_8000_0000_0000_0000);
}
