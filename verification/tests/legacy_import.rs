use std::cell::RefCell;
use std::collections::HashMap;

use sift::config::AppConfig;
use sift::legacy_import::{
    EntryPlan, ImportReport, LegacyImportError, XmlAttr, XmlEvent, finish_entry, import_entries,
    import_from_text, legacy_entries, plan_entry,
    parse_legacy_config,
    sanitize_connection_string,
};
use sift::secrets::{SecretError, SecretKind, SecretRef, SecretStore, SecretString};

/// A session-only store for the tests.
#[derive(Default)]
struct MemoryStore {
    entries: RefCell<HashMap<String, String>>,
}

impl SecretStore for MemoryStore {
    fn get(&self, key: &SecretRef) -> Result<Option<SecretString>, SecretError> {
        Ok(self.entries.borrow().get(&key.account()).map(|v| SecretString::from_str(v)))
    }

    fn set(&self, key: &SecretRef, value: &SecretString) -> Result<(), SecretError> {
        self.entries.borrow_mut().insert(key.account(), value.expose().to_owned());
        Ok(())
    }

    fn delete(&self, key: &SecretRef) -> Result<(), SecretError> {
        self.entries.borrow_mut().remove(&key.account());
        Ok(())
    }

    fn backend_name(&self) -> &'static str {
        "test memory"
    }
}

/// A store that refuses everything.
struct LockedStore;

impl SecretStore for LockedStore {
    fn get(&self, _key: &SecretRef) -> Result<Option<SecretString>, SecretError> {
        Err(SecretError::Store("locked".into()))
    }

    fn set(&self, _key: &SecretRef, _value: &SecretString) -> Result<(), SecretError> {
        Err(SecretError::Store("locked".into()))
    }

    fn delete(&self, _key: &SecretRef) -> Result<(), SecretError> {
        Err(SecretError::Store("locked".into()))
    }

    fn backend_name(&self) -> &'static str {
        "locked"
    }
}

const SAMPLE: &str = r#"<?xml version="1.0" encoding="utf-8" standalone="yes"?>
<configuration>
  <configSections>
    <section name="serviceBusNamespaces" type="System.Configuration.DictionarySectionHandler, System" />
  </configSections>
  <serviceBusNamespaces>
    <add key="SB Dev" value="Endpoint=sb://dev.servicebus.windows.net/;SharedAccessKeyName=RootManageSharedAccessKey;SharedAccessKey=devkey==;TransportType=NetMessaging" />
    <add key="SB Prod" value="Endpoint=sb://prod.servicebus.windows.net/;SharedAccessKeyName=RootManageSharedAccessKey;SharedAccessKey=prodkey==" />
    <add key="Broken" value="ThisIsNotAConnectionString" />
  </serviceBusNamespaces>
</configuration>"#;

#[test]
fn parses_namespace_entries() {
    let entries = parse_legacy_config(SAMPLE).unwrap();
    assert_eq!(entries.len(), 3);
    assert_eq!(entries[0].0, "SB Dev");
    assert!(entries[1].1.expose().contains("prodkey=="));
}

#[test]
fn imports_valid_entries_and_reports_broken_ones() {
    let mut config = AppConfig::default();
    let secrets = MemoryStore::default();

    let entries = parse_legacy_config(SAMPLE).unwrap();
    let report = import_entries(entries, &mut config, &secrets);

    assert_eq!(report.imported, vec!["SB Dev", "SB Prod"]);
    assert!(report.updated.is_empty());
    assert_eq!(report.skipped.len(), 1);
    assert_eq!(report.skipped[0].0, "Broken");
    assert_eq!(config.profiles.len(), 2);

    // NetMessaging is stripped from the stored secret.
    let dev = config.profiles.iter().find(|p| p.name == "SB Dev").unwrap();
    let stored = secrets
        .get(&SecretRef::new(dev.id, SecretKind::ConnectionString))
        .unwrap()
        .unwrap();
    assert!(!stored.expose().to_ascii_lowercase().contains("netmessaging"));
    assert!(stored.expose().contains("SharedAccessKey=devkey=="));
    assert_eq!(report.warnings.len(), 1);
}

#[test]
fn reimport_updates_instead_of_duplicating() {
    let mut config = AppConfig::default();
    let secrets = MemoryStore::default();

    let entries = parse_legacy_config(SAMPLE).unwrap();
    import_entries(entries, &mut config, &secrets);
    let report = import_entries(parse_legacy_config(SAMPLE).unwrap(), &mut config, &secrets);

    assert!(report.imported.is_empty());
    assert_eq!(report.updated, vec!["SB Dev", "SB Prod"]);
    assert_eq!(config.profiles.len(), 2);
}

#[test]
fn sanitize_drops_only_net_messaging() {
    let (clean, note) = sanitize_connection_string(
        "Endpoint=sb://a/;TransportType = netmessaging ;SharedAccessKey=k==",
    );
    assert_eq!(clean, "Endpoint=sb://a/;SharedAccessKey=k==");
    assert_eq!(note.as_deref(), Some("removed legacy 'TransportType=NetMessaging'"));

    let (same, none) = sanitize_connection_string("Endpoint=sb://a/;TransportType=Amqp");
    assert_eq!(same, "Endpoint=sb://a/;TransportType=Amqp");
    assert!(none.is_none());

    let (empty, none) = sanitize_connection_string("");
    assert_eq!(empty, "");
    assert!(none.is_none());

    let (gone, some) = sanitize_connection_string("TransportType=NetMessaging");
    assert_eq!(gone, "");
    assert!(some.is_some());
}

#[test]
fn entries_outside_the_section_are_ignored() {
    let xml = r#"<configuration>
  <appSettings><add key="x" value="y"/></appSettings>
  <serviceBusNamespaces>
    <add key="only" value="Endpoint=sb://a/;SharedAccessKeyName=n;SharedAccessKey=k"/>
    <add key="no-value"/>
  </serviceBusNamespaces>
  <add key="after" value="z"/>
</configuration>"#;
    let entries = parse_legacy_config(xml).unwrap();
    assert_eq!(entries.len(), 1);
    assert_eq!(entries[0].0, "only");
}

#[test]
fn escaped_attribute_values_are_unescaped() {
    let xml = r#"<serviceBusNamespaces><add key="a &amp; b" value="v&lt;1"/></serviceBusNamespaces>"#;
    let entries = parse_legacy_config(xml).unwrap();
    assert_eq!(entries[0].0, "a & b");
    assert_eq!(entries[0].1.expose(), "v<1");
}

#[test]
fn malformed_xml_is_an_error() {
    assert!(parse_legacy_config("<serviceBusNamespaces><add key=\"a\" value=\"b\"></oops>").is_err());
}

#[test]
fn file_without_entries_is_reported() {
    let mut config = AppConfig::default();
    let secrets = MemoryStore::default();
    match import_from_text("old.config", "<configuration/>", &mut config, &secrets) {
        Err(e @ LegacyImportError::NoNamespaces { .. }) => {
            assert_eq!(e.message(), "no <serviceBusNamespaces> entries found in old.config")
        }
        _ => panic!("expected NoNamespaces"),
    }
    match import_from_text("bad.config", "<a><b></a>", &mut config, &secrets) {
        Err(LegacyImportError::Parse { path, .. }) => assert_eq!(path, "bad.config"),
        _ => panic!("expected a parse error"),
    }
    let report = import_from_text("ok.config", SAMPLE, &mut config, &secrets).unwrap();
    assert_eq!(report.summary(), "2 imported, 0 updated, 1 skipped");
}

#[test]
fn refused_secrets_skip_the_entry() {
    let mut config = AppConfig::default();
    let report = import_entries(parse_legacy_config(SAMPLE).unwrap(), &mut config, &LockedStore);
    assert!(report.imported.is_empty());
    assert_eq!(report.skipped.len(), 3);
    assert_eq!(report.skipped[0].1, "secret store error: locked");
    assert!(config.profiles.is_empty());
}

#[test]
fn entries_come_from_add_elements_inside_the_section() {
    let add = |k: &str, v: &str| XmlEvent::Empty {
        name: "add".to_owned(),
        attributes: vec![
            XmlAttr { key: "key".to_owned(), value: Ok(k.to_owned()) },
            XmlAttr { key: "value".to_owned(), value: Ok(v.to_owned()) },
        ],
    };
    let events = vec![
        add("outside", "x"),
        XmlEvent::Start { name: "serviceBusNamespaces".to_owned(), attributes: vec![] },
        add("a", "1"),
        XmlEvent::Other,
        add("b", "2"),
        XmlEvent::End { name: "serviceBusNamespaces".to_owned() },
        add("after", "y"),
        XmlEvent::Eof,
        XmlEvent::Start { name: "serviceBusNamespaces".to_owned(), attributes: vec![] },
        add("past-the-end", "z"),
    ];
    let entries = legacy_entries(&events).unwrap();
    let names: Vec<&str> = entries.iter().map(|(n, _)| n.as_str()).collect();
    assert_eq!(names, vec!["a", "b"]);
    assert_eq!(entries[1].1.expose(), "2");

    let bad = vec![
        XmlEvent::Start { name: "serviceBusNamespaces".to_owned(), attributes: vec![] },
        XmlEvent::Empty {
            name: "add".to_owned(),
            attributes: vec![XmlAttr { key: "key".to_owned(), value: Err("bad entity".to_owned()) }],
        },
    ];
    assert_eq!(legacy_entries(&bad).err().as_deref(), Some("bad entity"));
}

#[test]
fn the_store_is_asked_for_the_cleaned_string_under_the_profile() {
    let mut config = AppConfig::default();
    let raw = SecretString::from_str(
        "Endpoint=sb://dev.servicebus.windows.net/;SharedAccessKeyName=Root;SharedAccessKey=devkey==;TransportType=NetMessaging",
    );
    let (warning, plan) = plan_entry("SB Dev".to_owned(), &raw, &config.profiles);
    assert_eq!(warning.as_deref(), Some("SB Dev: removed legacy 'TransportType=NetMessaging'"));
    let id = match &plan {
        EntryPlan::Store { name, request, profile, existing } => {
            assert_eq!(name, "SB Dev");
            assert!(!existing);
            assert_eq!(request.key.profile_id, profile.id);
            assert_eq!(request.key.kind, SecretKind::ConnectionString);
            assert_eq!(
                request.value.expose(),
                "Endpoint=sb://dev.servicebus.windows.net/;SharedAccessKeyName=Root;SharedAccessKey=devkey=="
            );
            profile.id
        }
        EntryPlan::Skip { .. } => panic!("the entry parses"),
    };
    let mut report = ImportReport::default();
    finish_entry(plan, Ok(()), &mut config, &mut report);
    assert_eq!(report.imported, vec!["SB Dev".to_owned()]);
    assert_eq!(config.profiles.len(), 1);
    assert_eq!(config.profiles[0].id, id);

    // Planning the same name again refreshes that profile.
    let (_, again) = plan_entry("SB Dev".to_owned(), &raw, &config.profiles);
    assert!(matches!(again, EntryPlan::Store { existing: true, ref profile, .. } if profile.id == id));

    let (_, skip) = plan_entry("Broken".to_owned(), &SecretString::from_str("nope"), &config.profiles);
    assert!(matches!(skip, EntryPlan::Skip { ref name, .. } if name == "Broken"));
}
