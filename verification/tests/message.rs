use sift::body::decode;
use sift::duration::Duration;
use sift::bridge::{EntityPath, MessageSource, send_target};
use sift::message::{
    MessageState, OutboundMessage, SiftMessage, format_time, format_time_parts,
    is_dead_letter_property,
};
use sift::timestamp::Timestamp;
use sift::view_state::MessagesView;

fn message(body: Vec<u8>) -> SiftMessage {
    SiftMessage {
        sequence_number: 1,
        message_id: None,
        subject: None,
        content_type: None,
        correlation_id: None,
        session_id: None,
        reply_to: None,
        to: None,
        enqueued_time: None,
        expires_at: None,
        time_to_live: None,
        delivery_count: None,
        state: MessageState::Active,
        lock_token: None,
        locked_until: None,
        dead_letter_reason: None,
        dead_letter_error_description: None,
        dead_letter_source: None,
        application_properties: Vec::new(),
        body: decode(body),
    }
}

#[test]
fn to_outbound_strips_system_properties_and_keeps_body() {
    let msg = SiftMessage {
        sequence_number: 42,
        message_id: Some("original-id".into()),
        subject: Some("subject".into()),
        content_type: Some("application/json".into()),
        correlation_id: None,
        session_id: None,
        reply_to: None,
        to: None,
        enqueued_time: None,
        expires_at: None,
        time_to_live: None,
        delivery_count: Some(3),
        state: MessageState::Active,
        lock_token: Some("token".into()),
        locked_until: None,
        dead_letter_reason: Some("TTLExpired".into()),
        dead_letter_error_description: None,
        dead_letter_source: None,
        application_properties: vec![("k".into(), "v".into())],
        body: decode(br#"{"a":1}"#.to_vec()),
    };
    let out = msg.to_outbound();
    assert!(out.message_id.is_none());
    assert_eq!(out.subject.as_deref(), Some("subject"));
    assert_eq!(out.application_properties.len(), 1);
    assert!(out.raw_bytes.is_none());
    assert!(out.body.contains("\"a\": 1"));
}

#[test]
fn binary_bodies_resend_raw_bytes() {
    let bytes = vec![0x00, 0xff, 0x01, 0x02, 0x03, 0x04];
    let msg = message(bytes.clone());
    let out = msg.to_outbound();
    assert_eq!(out.raw_bytes.as_deref(), Some(bytes.as_slice()));
    assert_eq!(out.payload(), bytes);
}

#[test]
fn dead_letter_metadata_is_not_resent() {
    let mut msg = message(b"hi".to_vec());
    msg.application_properties = vec![
        ("DeadLetterReason".into(), "x".into()),
        ("tenant".into(), "a".into()),
        ("DeadLetterSource".into(), "q".into()),
        ("DeadLetterErrorDescription".into(), "y".into()),
        ("region".into(), "b".into()),
    ];
    msg.time_to_live = Some(Duration::from_secs(30));
    let out = msg.to_outbound();
    assert_eq!(
        out.application_properties,
        vec![("tenant".to_owned(), "a".to_owned()), ("region".to_owned(), "b".to_owned())]
    );
    assert_eq!(out.time_to_live, Some(Duration::from_secs(30)));
    assert_eq!(out.body, "hi");
    assert!(is_dead_letter_property("DeadLetterReason"));
    assert!(!is_dead_letter_property("deadletterreason"));
}

#[test]
fn payload_is_the_text_when_there_are_no_raw_bytes() {
    let out = OutboundMessage { body: "héllo".to_owned(), ..OutboundMessage::default() };
    assert_eq!(out.payload(), "héllo".as_bytes().to_vec());
    assert_eq!(MessageState::Deferred.label(), "deferred");
}

#[test]
fn settled_rows_are_removed_and_selection_follows() {
    let mut view = MessagesView::new(10);
    for (seq, token) in [(5, "a"), (6, "b"), (7, "c")] {
        let mut m = message(b"x".to_vec());
        m.sequence_number = seq;
        m.lock_token = Some(token.to_owned());
        view.rows.push(m);
    }
    view.selected = Some(2);
    assert_eq!(view.next_seq(), Some(8));
    view.remove_by_lock_token("a");
    assert_eq!(view.rows.len(), 2);
    assert_eq!(view.selected, Some(1));
    assert_eq!(view.selected_message().unwrap().sequence_number, 7);
    view.remove_by_lock_token("zzz");
    assert_eq!(view.rows.len(), 2);
    view.remove_by_lock_token("c");
    assert_eq!(view.selected, None);
    assert_eq!(view.rows.len(), 1);
}

#[test]
fn timestamps_show_zero_padded_in_their_offset() {
    let t = time::OffsetDateTime::from_unix_timestamp(1_546_304_400).unwrap(); // 2019-01-01 01:00 UTC
    assert_eq!(format_time(Timestamp::of(t)), "2019-01-01 01:00:00");
    let shifted = t.to_offset(time::UtcOffset::from_hms(-2, 0, 0).unwrap());
    assert_eq!(format_time(Timestamp::of(shifted)), "2018-12-31 23:00:00");
    assert_eq!(Timestamp::of(shifted).unix_seconds, 1_546_304_400);
    assert_eq!(format_time_parts(7, 3, 4, 5, 6, 7), "0007-03-04 05:06:07");
    assert_eq!(format_time_parts(-5, 1, 1, 0, 0, 0), "-005-01-01 00:00:00");
    assert_eq!(format_time_parts(12345, 12, 31, 23, 59, 59), "12345-12-31 23:59:59");
}

#[test]
fn resends_from_subscriptions_go_to_the_topic() {
    let sub = MessageSource {
        entity: EntityPath::Subscription { topic: "orders".to_owned(), name: "audit".to_owned() },
        dead_letter: true,
    };
    assert_eq!(send_target(&sub), EntityPath::Topic("orders".to_owned()));
    let queue = MessageSource { entity: EntityPath::Queue("jobs".to_owned()), dead_letter: false };
    assert_eq!(send_target(&queue), EntityPath::Queue("jobs".to_owned()));
}
