use std::cell::RefCell;
use std::collections::HashMap;

use sift::config::{AppConfig, ProfileId};
use sift::dialogs::{ConnectDialog, save_profile};
use sift::secrets::{SecretError, SecretKind, SecretRef, SecretStore, SecretString};

const CONN: &str =
    "Endpoint=sb://contoso.servicebus.windows.net/;SharedAccessKeyName=root;SharedAccessKey=abc";

#[derive(Default)]
struct Memory {
    entries: RefCell<HashMap<String, String>>,
}

impl SecretStore for Memory {
    fn get(&self, key: &SecretRef) -> Result<Option<SecretString>, SecretError> {
        Ok(self.entries.borrow().get(&key.account()).map(|v| SecretString::from_str(v)))
    }

    fn set(&self, key: &SecretRef, value: &SecretString) -> Result<(), SecretError> {
        self.entries.borrow_mut().insert(key.account(), value.expose().to_owned());
        Ok(())
    }

    fn delete(&self, key: &SecretRef) -> Result<(), SecretError> {
        self.entries.borrow_mut().remove(&key.account());
        Ok(())
    }

    fn backend_name(&self) -> &'static str {
        "memory"
    }
}

struct Refusing;

impl SecretStore for Refusing {
    fn get(&self, _key: &SecretRef) -> Result<Option<SecretString>, SecretError> {
        Err(SecretError::Store("locked".into()))
    }

    fn set(&self, _key: &SecretRef, _value: &SecretString) -> Result<(), SecretError> {
        Err(SecretError::Store("locked".into()))
    }

    fn delete(&self, _key: &SecretRef) -> Result<(), SecretError> {
        Err(SecretError::Store("locked".into()))
    }

    fn backend_name(&self) -> &'static str {
        "refusing"
    }
}

#[test]
fn saving_a_pasted_connection_string_stores_it_and_the_profile() {
    let store = Memory::default();
    let mut config = AppConfig::default();
    let mut dialog = ConnectDialog::default();
    dialog.connection_string = format!("  {CONN}  ");
    let (profile, secret) = save_profile(&mut dialog, &mut config, &store).unwrap();
    assert_eq!(profile.name, "contoso");
    assert_eq!(secret.expose(), CONN);
    assert_eq!(config.profiles.len(), 1);
    assert_eq!(dialog.selected, Some(profile.id));
    assert_eq!(dialog.name, "contoso");
    assert!(dialog.connection_string.is_empty());
    assert_eq!(dialog.error, None);
    let stored = store.get(&SecretRef::new(profile.id, SecretKind::ConnectionString)).unwrap();
    assert_eq!(stored.unwrap().expose(), CONN);

    // Saving again without pasting uses the stored secret and keeps the id.
    dialog.name = " Production ".to_owned();
    let (again, _) = save_profile(&mut dialog, &mut config, &store).unwrap();
    assert_eq!(again.id, profile.id);
    assert_eq!(again.name, "Production");
    assert_eq!(config.profiles.len(), 1);
    assert_eq!(config.profiles[0].name, "Production");
}

#[test]
fn saving_explains_what_is_missing() {
    let store = Memory::default();
    let mut config = AppConfig::default();
    let mut dialog = ConnectDialog::default();
    assert!(save_profile(&mut dialog, &mut config, &store).is_none());
    assert_eq!(dialog.error.as_deref(), Some("Paste a connection string."));

    let mut dialog = ConnectDialog::for_profile(ProfileId { value: 5 }, "p".to_owned(), false);
    assert!(save_profile(&mut dialog, &mut config, &store).is_none());
    assert_eq!(dialog.error.as_deref(), Some("No stored connection string (memory); paste one."));

    let mut dialog = ConnectDialog::default();
    dialog.connection_string = "Endpoint=sb://x.servicebus.windows.net/".to_owned();
    assert!(save_profile(&mut dialog, &mut config, &store).is_none());
    assert!(dialog.error.unwrap().contains("no credentials"));
    assert!(config.profiles.is_empty());

    let mut dialog = ConnectDialog::default();
    dialog.connection_string = CONN.to_owned();
    assert!(save_profile(&mut dialog, &mut config, &Refusing).is_none());
    assert_eq!(
        dialog.error.as_deref(),
        Some("Could not store the secret: secret store error: locked")
    );
    assert!(config.profiles.is_empty());
}
