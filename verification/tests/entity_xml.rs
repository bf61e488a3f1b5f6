use sift::atom;
use sift::duration::Duration;
use sift::entity_xml::{queue_body, rule_body, subscription_body, topic_body};
use sift::model::{
    EntityStatus, MessageCountDetails, QueueProperties, RuleFilter, RuleProperties,
    SubscriptionProperties, TopicProperties,
};

#[test]
fn field_order_matches_the_xsd() {
    let body = queue_body(&QueueProperties::default());
    let positions: Vec<usize> = [
        "<LockDuration>",
        "<MaxSizeInMegabytes>",
        "<RequiresDuplicateDetection>",
        "<RequiresSession>",
        "<DefaultMessageTimeToLive>",
        "<DeadLetteringOnMessageExpiration>",
        "<DuplicateDetectionHistoryTimeWindow>",
        "<MaxDeliveryCount>",
        "<EnableBatchedOperations>",
        "<Status>",
        "<AutoDeleteOnIdle>",
        "<EnablePartitioning>",
        "<EnableExpress>",
    ]
    .iter()
    .map(|tag| body.find(tag).unwrap_or_else(|| panic!("missing {tag}")))
    .collect();
    assert!(positions.is_sorted(), "queue fields out of XSD order");
}

#[test]
fn queue_body_has_envelope_and_values() {
    let props = QueueProperties {
        name: "orders".into(),
        requires_session: true,
        forward_to: Some("a<b".into()),
        user_metadata: Some(String::new()),
        status: EntityStatus::SendDisabled,
        max_message_size_in_kilobytes: Some(-5),
        ..QueueProperties::default()
    };
    let body = queue_body(&props);
    assert!(body.starts_with(r#"<?xml version="1.0" encoding="utf-8"?>"#));
    assert!(body.contains(r#"<entry xmlns="http://www.w3.org/2005/Atom"><content type="application/xml"><QueueDescription xmlns="#));
    assert!(body.contains("<LockDuration>PT1M</LockDuration>"));
    assert!(body.contains("<RequiresSession>true</RequiresSession>"));
    assert!(body.contains("<ForwardTo>a&lt;b</ForwardTo>"));
    assert!(!body.contains("UserMetadata"));
    assert!(body.contains("<Status>SendDisabled</Status>"));
    assert!(body.contains("<MaxMessageSizeInKilobytes>-5</MaxMessageSizeInKilobytes>"));
    assert!(body.contains("<DefaultMessageTimeToLive>P10675199DT2H48M5.4775807S</DefaultMessageTimeToLive>"));
    assert!(body.ends_with("</QueueDescription></content></entry>"));
}

#[test]
fn topic_and_subscription_bodies() {
    let topic = TopicProperties {
        name: "events".into(),
        support_ordering: true,
        ..TopicProperties::default()
    };
    let body = topic_body(&topic);
    assert!(body.contains("<SupportOrdering>true</SupportOrdering>"));
    assert!(body.contains("<TopicDescription xmlns="));

    let sub = SubscriptionProperties {
        topic: "events".into(),
        name: "audit".into(),
        max_delivery_count: 3,
        lock_duration: Duration::from_secs(30),
        ..SubscriptionProperties::default()
    };
    let body = subscription_body(&sub);
    assert!(body.contains("<LockDuration>PT30S</LockDuration>"));
    assert!(body.contains("<MaxDeliveryCount>3</MaxDeliveryCount>"));
    assert!(body.contains("<DeadLetteringOnFilterEvaluationExceptions>true</DeadLetteringOnFilterEvaluationExceptions>"));
}

#[test]
fn rule_bodies() {
    let rule = RuleProperties {
        topic: "events".into(),
        subscription: "audit".into(),
        name: "high-priority".into(),
        filter: RuleFilter::Sql {
            expression: "priority > 3".into(),
        },
        action: Some("SET processed = 'true'".into()),
    };
    let body = rule_body(&rule);
    assert!(body.contains(r#"<Filter i:type="SqlFilter"><SqlExpression>priority &gt; 3</SqlExpression></Filter>"#));
    assert!(body.contains(r#"<Action i:type="SqlRuleAction"><SqlExpression>SET processed = &apos;true&apos;</SqlExpression></Action>"#));
    assert!(body.contains("<Name>high-priority</Name>"));

    let rule = RuleProperties {
        filter: RuleFilter::Correlation {
            correlation_id: Some("c1".into()),
            message_id: None,
            to: None,
            reply_to: None,
            subject: Some("s".into()),
            session_id: None,
            reply_to_session_id: None,
            content_type: None,
            properties: vec![("k".into(), "v&w".into())],
        },
        action: Some("   ".into()),
        ..rule
    };
    let body = rule_body(&rule);
    assert!(body.contains("<CorrelationId>c1</CorrelationId><Label>s</Label><Properties><KeyValueOfstringanyType><Key>k</Key>"));
    assert!(body.contains(">v&amp;w</Value>"));
    assert!(body.contains(r#"<Action i:type="EmptyRuleAction"></Action>"#));
}

#[test]
fn status_text_round_trips() {
    for s in EntityStatus::all() {
        assert_eq!(EntityStatus::parse(s.as_str()), s);
    }
    assert_eq!(EntityStatus::parse("bogus"), EntityStatus::Active);
}

#[test]
fn count_total_and_summaries() {
    let c = MessageCountDetails {
        active: 5,
        dead_letter: 2,
        scheduled: 1,
        transfer: 0,
        transfer_dead_letter: 3,
    };
    assert_eq!(c.total(), 11);
    assert_eq!(RuleFilter::True.summary(), "1=1 (true)");
    assert_eq!(RuleFilter::False.summary(), "1=0 (false)");
    assert_eq!(RuleFilter::Sql { expression: "a = 1".into() }.summary(), "a = 1");
}

/// PUT bodies have no `<title>`; splice one in so the round trip covers the
/// name too.
fn with_title(body: &str, title: &str) -> String {
    body.replace(
        "<content type=\"application/xml\">",
        &format!("<title type=\"text\">{title}</title><content type=\"application/xml\">"),
    )
}

#[test]
fn queue_body_round_trips_through_the_parser() {
    let mut props = QueueProperties {
        name: "orders".into(),
        requires_session: true,
        dead_lettering_on_message_expiration: true,
        forward_dead_lettered_messages_to: Some("orders-dlq-archive".into()),
        status: EntityStatus::SendDisabled,
        ..QueueProperties::default()
    };
    let body = queue_body(&props);
    assert!(body.starts_with(r#"<?xml version="1.0" encoding="utf-8"?>"#));

    let parsed = atom::parse_queue(&with_title(&body, "orders")).unwrap().unwrap();
    props.name = "orders".into();
    assert_eq!(parsed.properties, props);
}

#[test]
fn sql_rule_round_trips() {
    let props = RuleProperties {
        topic: "events".into(),
        subscription: "audit".into(),
        name: "high-priority".into(),
        filter: RuleFilter::Sql { expression: "priority > 3".into() },
        action: Some("SET processed = 'true'".into()),
    };
    let parsed = atom::parse_rule(&rule_body(&props), "events", "audit").unwrap().unwrap();
    assert_eq!(parsed.properties, props);
}

#[test]
fn subscription_body_round_trips() {
    let mut props = SubscriptionProperties {
        topic: "events".into(),
        name: "audit".into(),
        requires_session: true,
        max_delivery_count: 3,
        ..SubscriptionProperties::default()
    };
    let body = subscription_body(&props);
    let parsed = atom::parse_subscription(&with_title(&body, "audit"), "events").unwrap().unwrap();
    props.name = "audit".into();
    assert_eq!(parsed.properties, props);
}

#[test]
fn topic_body_round_trips() {
    let props = TopicProperties {
        name: "events".into(),
        support_ordering: true,
        ..TopicProperties::default()
    };
    let parsed = atom::parse_topic(&with_title(&topic_body(&props), "events")).unwrap().unwrap();
    assert_eq!(parsed.properties, props);
}

#[test]
fn correlation_rule_round_trips() {
    let props = RuleProperties {
        topic: "t".into(),
        subscription: "s".into(),
        name: "corr".into(),
        filter: RuleFilter::Correlation {
            correlation_id: Some("c-1".into()),
            message_id: None,
            to: None,
            reply_to: None,
            subject: Some("created".into()),
            session_id: None,
            reply_to_session_id: None,
            content_type: None,
            properties: vec![("region".into(), "eu".into())],
        },
        action: None,
    };
    let parsed = atom::parse_rule(&rule_body(&props), "t", "s").unwrap().unwrap();
    assert_eq!(parsed.properties, props);
}
