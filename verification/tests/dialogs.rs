use sift::bridge::{EntityDescription, EntityPath, MessageSource};
use sift::config::ProfileId;
use sift::dialogs::{
    ConfirmDialog, CreateDialog, PendingConfirm, SendDialog, parse_i64, parse_u64,
};
use sift::duration::{Duration, unlimited};
use sift::message::OutboundMessage;
use sift::model::RuleFilter;
use sift::view_state::{CreateKind, TabId};

#[test]
fn create_dialog_starts_with_service_like_defaults() {
    let d = CreateDialog::new(CreateKind::Queue);
    assert_eq!(d.max_delivery_count, 10);
    assert_eq!(d.lock_duration_secs, 60);
    assert_eq!(d.sql_filter, "1=1");
    assert_eq!(d.title(), "Create queue");
    let r = CreateDialog::new(CreateKind::Rule { topic: "t".into(), subscription: "s".into() });
    assert_eq!(r.title(), "Add rule to 't/s'");
    let s = CreateDialog::new(CreateKind::Subscription { topic: "events".into() });
    assert_eq!(s.title(), "Create subscription on 'events'");
}

#[test]
fn blank_and_slashed_names_are_refused() {
    let mut d = CreateDialog::new(CreateKind::Queue);
    d.name = "   ".into();
    assert!(d.build().is_none());
    assert_eq!(d.error.as_deref(), Some("Enter a name."));

    d.name = "/orders".into();
    assert!(d.build().is_none());
    assert_eq!(
        d.error.as_deref(),
        Some("Entity names must be at most 260 characters and cannot start or end with '/'.")
    );

    d.name = "x".repeat(261);
    assert!(d.build().is_none());
    d.name = "x".repeat(260);
    assert!(d.build().is_some());
}

#[test]
fn queue_description_takes_the_form_settings() {
    let mut d = CreateDialog::new(CreateKind::Queue);
    d.name = "  orders ".into();
    d.requires_session = true;
    d.lock_duration_secs = 30;
    d.max_delivery_count = 5;
    match d.build() {
        Some(EntityDescription::Queue(q)) => {
            assert_eq!(q.name, "orders");
            assert!(q.requires_session);
            assert_eq!(q.lock_duration, Duration::from_secs(30));
            assert_eq!(q.max_delivery_count, 5);
            assert_eq!(q.max_size_in_megabytes, 1024);
            assert_eq!(q.default_message_time_to_live, unlimited());
        }
        _ => panic!("expected a queue"),
    }
}

#[test]
fn rule_needs_a_filter_and_drops_an_empty_action() {
    let mut d = CreateDialog::new(CreateKind::Rule { topic: "t".into(), subscription: "s".into() });
    d.name = "r1".into();
    d.sql_filter = "  ".into();
    assert!(d.build().is_none());
    assert_eq!(d.error.as_deref(), Some("Enter a SQL filter expression (e.g. 1=1)."));

    d.sql_filter = " color = 'red' ".into();
    d.sql_action = "   ".into();
    match d.build() {
        Some(EntityDescription::Rule(r)) => {
            assert_eq!(r.filter, RuleFilter::Sql { expression: "color = 'red'".into() });
            assert!(r.action.is_none());
            assert_eq!(r.topic, "t");
            assert_eq!(r.subscription, "s");
        }
        _ => panic!("expected a rule"),
    }
    d.sql_action = " SET x = 1 ".into();
    match d.build() {
        Some(EntityDescription::Rule(r)) => assert_eq!(r.action.as_deref(), Some("SET x = 1")),
        _ => panic!("expected a rule"),
    }
}

#[test]
fn integers_parse_as_std_does() {
    for s in ["0", "+7", "-7", "9223372036854775807", "-9223372036854775808", "", "+", "-", "1 ", "--1", "9223372036854775808", "-9223372036854775809", "12a"] {
        assert_eq!(parse_i64(s), s.parse::<i64>().ok(), "{s:?}");
    }
    for s in ["0", "+7", "-7", "18446744073709551615", "18446744073709551616", "", "+"] {
        assert_eq!(parse_u64(s), s.parse::<u64>().ok(), "{s:?}");
    }
}

fn send_dialog() -> SendDialog {
    SendDialog::new(ProfileId::nil(), EntityPath::Queue("orders".into()))
}

#[test]
fn schedule_field_reads_positive_minutes() {
    let mut d = send_dialog();
    assert_eq!(d.schedule_minutes(), Ok(None));
    d.schedule_in_minutes = " 0 ".into();
    assert_eq!(d.schedule_minutes(), Ok(None));
    d.schedule_in_minutes = "15".into();
    assert_eq!(d.schedule_minutes(), Ok(Some(15)));
    d.schedule_in_minutes = "-3".into();
    assert_eq!(
        d.schedule_minutes(),
        Err("Schedule must be a positive number of minutes.".to_owned())
    );
    d.schedule_in_minutes = "soon".into();
    assert!(d.schedule_minutes().is_err());
}

#[test]
fn send_dialog_builds_repeated_messages() {
    let mut d = send_dialog();
    d.body = "hello".into();
    d.subject = "  greeting ".into();
    d.message_id = "   ".into();
    d.ttl_seconds = "60".into();
    d.properties = vec![("  k ".into(), "v".into()), (" ".into(), "dropped".into())];
    d.repeat = 3;
    let msgs = d.build().unwrap();
    assert_eq!(msgs.len(), 3);
    for m in &msgs {
        assert_eq!(m.body, "hello");
        assert_eq!(m.subject.as_deref(), Some("greeting"));
        assert!(m.message_id.is_none());
        assert_eq!(m.time_to_live, Some(Duration::from_secs(60)));
        assert_eq!(m.application_properties, vec![("k".to_owned(), "v".to_owned())]);
    }
    d.ttl_seconds = "0".into();
    assert!(d.build().is_none());
    assert_eq!(d.error.as_deref(), Some("TTL must be a positive number of seconds."));
}

#[test]
fn prefilled_dialog_carries_the_message() {
    let from = OutboundMessage {
        body: "b".into(),
        message_id: Some("id".into()),
        subject: Some("s".into()),
        time_to_live: Some(Duration::from_secs(90)),
        application_properties: vec![("a".into(), "1".into())],
        ..OutboundMessage::default()
    };
    let d = SendDialog::prefilled(ProfileId::nil(), EntityPath::Topic("t".into()), from);
    assert_eq!(d.body, "b");
    assert_eq!(d.message_id, "");
    assert_eq!(d.subject, "s");
    assert_eq!(d.content_type, "");
    assert_eq!(d.ttl_seconds, "90");
    assert_eq!(d.properties, vec![("a".to_owned(), "1".to_owned())]);
    assert_eq!(d.repeat, 1);
}

#[test]
fn confirm_dialog_names_the_entity_and_arms_on_the_typed_name() {
    let path = EntityPath::Subscription { topic: "orders".to_owned(), name: "audit".to_owned() };
    let mut dialog = ConfirmDialog::new(PendingConfirm::Delete(path), true);
    assert_eq!(dialog.name, "audit");
    assert_eq!(dialog.confirm_label(), "Delete");
    assert!(!dialog.is_armed());
    dialog.typed = "  AUDIT ".to_owned();
    assert!(dialog.is_armed());
    dialog.typed = "audi".to_owned();
    assert!(!dialog.is_armed());

    let source = MessageSource { entity: EntityPath::Queue("jobs".to_owned()), dead_letter: true };
    let dialog = ConfirmDialog::new(PendingConfirm::Purge(source), false);
    assert_eq!(dialog.name, "jobs");
    assert_eq!(dialog.confirm_label(), "Purge");
    assert!(dialog.is_armed());
}

#[test]
fn tab_titles() {
    assert_eq!(TabId::Welcome.title(), "Welcome");
    assert_eq!(TabId::Dashboard.title(), "Dashboard");
    let rule = EntityPath::Rule {
        topic: "t".to_owned(),
        subscription: "s".to_owned(),
        name: "r".to_owned(),
    };
    assert_eq!(TabId::Entity(rule).title(), "r");
    assert_eq!(EntityPath::Topic("t".to_owned()).name(), "t");
}

#[test]
fn resending_through_the_form_gives_the_message_back() {
    let original = OutboundMessage {
        body: "{\"n\":1}".to_owned(),
        raw_bytes: None,
        message_id: None,
        subject: Some("order".to_owned()),
        content_type: Some("application/json".to_owned()),
        correlation_id: None,
        session_id: Some("s-1".to_owned()),
        to: None,
        reply_to: None,
        time_to_live: Some(Duration::from_secs(90)),
        application_properties: vec![("origin".to_owned(), "sift".to_owned())],
    };
    let mut dialog = SendDialog::prefilled(
        ProfileId { value: 1 },
        EntityPath::Queue("q".to_owned()),
        original.duplicate(),
    );
    let built = dialog.build().unwrap();
    assert_eq!(built.len(), 1);
    let copy = &built[0];
    assert_eq!(copy.body, original.body);
    assert_eq!(copy.subject, original.subject);
    assert_eq!(copy.content_type, original.content_type);
    assert_eq!(copy.correlation_id, original.correlation_id);
    assert_eq!(copy.session_id, original.session_id);
    assert_eq!(copy.time_to_live, original.time_to_live);
    assert_eq!(copy.application_properties, original.application_properties);
    assert_eq!(copy.message_id, None);
}

#[test]
fn a_refused_send_form_keeps_what_was_typed() {
    let mut d = send_dialog();
    d.body = "keep me".into();
    d.subject = "s".into();
    d.ttl_seconds = "soon".into();
    assert!(d.build().is_none());
    assert_eq!(d.body, "keep me");
    assert_eq!(d.subject, "s");
    assert_eq!(d.ttl_seconds, "soon");
    assert_eq!(d.error.as_deref(), Some("TTL must be a positive number of seconds."));
}
