use sift::atom::{
    parse_namespace_info, parse_queue, parse_queue_feed, parse_rule_feed, parse_topic_feed, read_xml,
};
use sift::duration::is_unlimited;
use sift::mgmt::MgmtError;
use sift::model::{EntityStatus, RuleFilter};

/// Captured shape of a real `$namespaceinfo` response.
const NAMESPACE_INFO: &str = r#"<?xml version="1.0" encoding="utf-8"?>
<entry xmlns="http://www.w3.org/2005/Atom">
  <id>https://contoso.servicebus.windows.net/$namespaceinfo?api-version=2021-05</id>
  <title type="text">contoso</title>
  <updated>2026-07-20T10:00:00Z</updated>
  <author><name>contoso</name></author>
  <content type="application/xml">
    <NamespaceInfo xmlns="http://schemas.microsoft.com/netservices/2010/10/servicebus/connect"
                   xmlns:i="http://www.w3.org/2001/XMLSchema-instance">
      <Alias i:nil="true"/>
      <CreatedTime>2024-03-01T08:30:00.123Z</CreatedTime>
      <MessagingSKU>Standard</MessagingSKU>
      <MessagingUnits i:nil="true">0</MessagingUnits>
      <ModifiedTime>2026-07-20T10:00:00Z</ModifiedTime>
      <Name>contoso</Name>
      <NamespaceType>Messaging</NamespaceType>
    </NamespaceInfo>
  </content>
</entry>"#;

/// Captured shape of a queue feed entry (fields the service actually emits).
const QUEUE_FEED: &str = r#"<?xml version="1.0" encoding="utf-8"?>
<feed xmlns="http://www.w3.org/2005/Atom">
  <title type="text">Queues</title>
  <entry>
    <id>https://contoso.servicebus.windows.net/orders?api-version=2021-05</id>
    <title type="text">orders</title>
    <content type="application/xml">
      <QueueDescription xmlns="http://schemas.microsoft.com/netservices/2010/10/servicebus/connect"
                        xmlns:i="http://www.w3.org/2001/XMLSchema-instance">
        <LockDuration>PT1M</LockDuration>
        <MaxSizeInMegabytes>1024</MaxSizeInMegabytes>
        <RequiresDuplicateDetection>false</RequiresDuplicateDetection>
        <RequiresSession>false</RequiresSession>
        <DefaultMessageTimeToLive>P10675199DT2H48M5.4775807S</DefaultMessageTimeToLive>
        <DeadLetteringOnMessageExpiration>true</DeadLetteringOnMessageExpiration>
        <DuplicateDetectionHistoryTimeWindow>PT10M</DuplicateDetectionHistoryTimeWindow>
        <MaxDeliveryCount>10</MaxDeliveryCount>
        <EnableBatchedOperations>true</EnableBatchedOperations>
        <SizeInBytes>2048</SizeInBytes>
        <MessageCount>7</MessageCount>
        <IsAnonymousAccessible>false</IsAnonymousAccessible>
        <Status>Active</Status>
        <CreatedAt>2024-03-01T08:30:00Z</CreatedAt>
        <UpdatedAt>2026-07-01T09:00:00Z</UpdatedAt>
        <AccessedAt>2026-07-20T10:00:00Z</AccessedAt>
        <SupportOrdering>true</SupportOrdering>
        <CountDetails xmlns:d2p1="http://schemas.microsoft.com/netservices/2011/06/servicebus">
          <d2p1:ActiveMessageCount>5</d2p1:ActiveMessageCount>
          <d2p1:DeadLetterMessageCount>2</d2p1:DeadLetterMessageCount>
          <d2p1:ScheduledMessageCount>0</d2p1:ScheduledMessageCount>
          <d2p1:TransferMessageCount>0</d2p1:TransferMessageCount>
          <d2p1:TransferDeadLetterMessageCount>0</d2p1:TransferDeadLetterMessageCount>
        </CountDetails>
        <AutoDeleteOnIdle>P10675199DT2H48M5.4775807S</AutoDeleteOnIdle>
        <EnablePartitioning>false</EnablePartitioning>
        <EnableExpress>false</EnableExpress>
      </QueueDescription>
    </content>
  </entry>
</feed>"#;

const RULE_FEED: &str = r#"<?xml version="1.0" encoding="utf-8"?>
<feed xmlns="http://www.w3.org/2005/Atom">
  <entry>
    <title type="text">$Default</title>
    <content type="application/xml">
      <RuleDescription xmlns="http://schemas.microsoft.com/netservices/2010/10/servicebus/connect"
                       xmlns:i="http://www.w3.org/2001/XMLSchema-instance">
        <Filter i:type="SqlFilter">
          <SqlExpression>1=1</SqlExpression>
          <CompatibilityLevel>20</CompatibilityLevel>
        </Filter>
        <Action i:type="EmptyRuleAction"/>
        <CreatedAt>2024-03-01T08:30:00Z</CreatedAt>
        <Name>$Default</Name>
      </RuleDescription>
    </content>
  </entry>
</feed>"#;

#[test]
fn parses_namespace_info_entry() {
    let info = parse_namespace_info(NAMESPACE_INFO).unwrap();
    assert_eq!(info.name, "contoso");
    assert_eq!(info.namespace_type.as_deref(), Some("Messaging"));
    assert_eq!(info.messaging_sku.as_deref(), Some("Standard"));
    assert!(info.alias.is_none());
    // nil-marked elements are ignored even when they contain text
    assert!(info.messaging_units.is_none());
    assert_eq!(info.created_time.unwrap().year, 2024);
    assert_eq!(info.modified_time.unwrap().year, 2026);
}

#[test]
fn missing_name_is_an_error() {
    assert!(matches!(parse_namespace_info("<entry></entry>"), Err(MgmtError::Xml(_))));
}

#[test]
fn parses_queue_feed_with_counts() {
    let queues = parse_queue_feed(QUEUE_FEED).unwrap();
    assert_eq!(queues.len(), 1);
    let queue = &queues[0];
    assert_eq!(queue.properties.name, "orders");
    assert!(queue.properties.dead_lettering_on_message_expiration);
    assert!(is_unlimited(queue.properties.default_message_time_to_live));
    assert_eq!(queue.runtime.message_count, 7);
    assert_eq!(queue.runtime.count_details.active, 5);
    assert_eq!(queue.runtime.count_details.dead_letter, 2);
    assert_eq!(queue.runtime.size_in_bytes, 2048);
}

#[test]
fn single_entry_parses_as_queue() {
    // GET of a single queue returns a bare <entry>, not a feed.
    let start = QUEUE_FEED.find("<entry>").unwrap();
    let end = QUEUE_FEED.find("</entry>").unwrap() + "</entry>".len();
    let entry = format!(
        r#"<?xml version="1.0" encoding="utf-8"?>{}"#,
        QUEUE_FEED[start..end].replace("<entry>", r#"<entry xmlns="http://www.w3.org/2005/Atom">"#)
    );
    let queue = parse_queue(&entry).unwrap().unwrap();
    assert_eq!(queue.properties.name, "orders");
}

#[test]
fn parses_default_sql_rule() {
    let rules = parse_rule_feed(RULE_FEED, "events", "audit").unwrap();
    assert_eq!(rules.len(), 1);
    let rule = &rules[0];
    assert_eq!(rule.properties.name, "$Default");
    assert_eq!(rule.properties.topic, "events");
    assert_eq!(rule.properties.filter, RuleFilter::Sql { expression: "1=1".into() });
    assert!(rule.properties.action.is_none());
}

#[test]
fn empty_feed_has_no_entity() {
    let feed = r#"<feed xmlns="http://www.w3.org/2005/Atom"><title>Queues</title></feed>"#;
    assert!(parse_queue(feed).unwrap().is_none());
    assert!(parse_topic_feed(feed).unwrap().is_empty());
    assert!(matches!(parse_queue("<feed>"), Err(MgmtError::Xml(_))));
}

#[test]
fn missing_fields_take_the_service_defaults() {
    let entry = r#"<entry><title>q</title><content><QueueDescription><Status>Disabled</Status><MaxDeliveryCount>99999999999</MaxDeliveryCount></QueueDescription></content></entry>"#;
    let q = parse_queue(entry).unwrap().unwrap();
    assert_eq!(q.properties.status, EntityStatus::Disabled);
    assert_eq!(q.properties.max_delivery_count, 10);
    assert!(q.properties.enable_batched_operations);
    assert_eq!(q.runtime.message_count, 0);
    assert!(q.runtime.created_at.is_none());
}

#[test]
fn document_nodes_come_in_document_order_with_depths() {
    let nodes = read_xml("<a><b>t</b><c/></a>").unwrap();
    let names: Vec<(&str, usize)> = nodes.iter().map(|n| (n.name.as_str(), n.depth)).collect();
    assert_eq!(names, vec![("", 0), ("a", 1), ("b", 2), ("", 3), ("c", 2)]);
    assert_eq!(nodes[2].text.as_deref(), Some("t"));
}

#[test]
fn runtime_timestamps_carry_the_instant() {
    let queues = parse_queue_feed(QUEUE_FEED).unwrap();
    let created = queues[0].runtime.created_at.unwrap();
    assert_eq!(created.unix_seconds, 1_709_281_800);
    assert_eq!((created.year, created.month, created.day), (2024, 3, 1));
    assert_eq!((created.hour, created.minute, created.second), (8, 30, 0));
    let accessed = queues[0].runtime.accessed_at.unwrap();
    assert_eq!((accessed.year, accessed.month, accessed.day, accessed.hour), (2026, 7, 20, 10));
    let rules = parse_rule_feed(RULE_FEED, "t", "s").unwrap();
    assert_eq!(rules[0].created_at.unwrap().unix_seconds, 1_709_281_800);
    let entry = r#"<entry><title>q</title><content><QueueDescription><CreatedAt>yesterday</CreatedAt></QueueDescription></content></entry>"#;
    assert!(parse_queue(entry).unwrap().unwrap().runtime.created_at.is_none());
}
