use sift::body::decode;
use sift::duration::Duration;
use sift::message::{MessageState, OutboundMessage, SiftMessage};
use sift::message_file::{
    BodyEncoding, MessageFile, MessageFileBody, MessageFileError, FORMAT, VERSION,
};

fn template(format: &str, version: u32, encoding: BodyEncoding, data: &str) -> MessageFile {
    MessageFile {
        format: format.to_owned(),
        version,
        body: MessageFileBody { encoding, data: data.to_owned() },
        message_id: None,
        subject: None,
        content_type: None,
        correlation_id: None,
        session_id: None,
        to: None,
        reply_to: None,
        ttl_seconds: None,
        application_properties: Vec::new(),
    }
}

#[test]
fn text_message_round_trips_all_editable_fields() {
    let message = OutboundMessage {
        body: "{\"order\":42}".to_owned(),
        message_id: Some("order-42".to_owned()),
        subject: Some("created".to_owned()),
        content_type: Some("application/json".to_owned()),
        correlation_id: Some("trace-7".to_owned()),
        session_id: Some("customer-9".to_owned()),
        to: Some("orders".to_owned()),
        reply_to: Some("order-replies".to_owned()),
        time_to_live: Some(Duration::from_secs(90)),
        application_properties: vec![("tenant".to_owned(), "northstar".to_owned())],
        ..OutboundMessage::default()
    };

    let file = MessageFile::from_outbound(&message);
    assert_eq!(file.format, "sift-message");
    assert_eq!(file.body.encoding, BodyEncoding::Utf8);

    let restored = file.validated().unwrap().to_outbound().unwrap();
    assert_eq!(restored.payload(), message.payload());
    assert_eq!(restored.message_id, message.message_id);
    assert_eq!(restored.subject, message.subject);
    assert_eq!(restored.content_type, message.content_type);
    assert_eq!(restored.correlation_id, message.correlation_id);
    assert_eq!(restored.session_id, message.session_id);
    assert_eq!(restored.to, message.to);
    assert_eq!(restored.reply_to, message.reply_to);
    assert_eq!(restored.time_to_live, message.time_to_live);
    assert_eq!(restored.application_properties, message.application_properties);
}

#[test]
fn binary_message_uses_base64_and_round_trips() {
    let bytes = vec![0, 1, 2, 0xff, 0xfe];
    let message = OutboundMessage { raw_bytes: Some(bytes.clone()), ..OutboundMessage::default() };

    let file = MessageFile::from_outbound(&message);
    assert_eq!(file.body.encoding, BodyEncoding::Base64);
    assert_eq!(file.body.data, "AAEC//4=");

    let restored = file.validated().unwrap().to_outbound().unwrap();
    assert_eq!(restored.payload(), bytes);
}

#[test]
fn inspected_message_keeps_original_json_bytes_and_id() {
    let original = br#"{"order":42}"#.to_vec();
    let message = SiftMessage {
        sequence_number: 12,
        message_id: Some("original-id".to_owned()),
        state: MessageState::Active,
        application_properties: Vec::new(),
        body: decode(original.clone()),
        subject: None,
        content_type: Some("application/json".to_owned()),
        correlation_id: None,
        session_id: None,
        reply_to: None,
        to: None,
        enqueued_time: None,
        expires_at: None,
        time_to_live: None,
        delivery_count: None,
        lock_token: None,
        locked_until: None,
        dead_letter_reason: None,
        dead_letter_error_description: None,
        dead_letter_source: None,
    };

    let restored = MessageFile::from_message(&message)
        .validated()
        .unwrap()
        .to_outbound()
        .unwrap();
    assert_eq!(restored.payload(), original);
    assert_eq!(restored.message_id.as_deref(), Some("original-id"));
}

#[test]
fn rejects_unknown_versions_and_invalid_base64() {
    let wrong_version = template("sift-message", 2, BodyEncoding::Utf8, "");
    assert!(matches!(wrong_version.validated(), Err(MessageFileError::Version(2))));

    let invalid = template("sift-message", 1, BodyEncoding::Base64, "%%%");
    assert!(matches!(invalid.validated(), Err(MessageFileError::InvalidBase64)));
}

#[test]
fn unknown_format_is_rejected_with_its_name() {
    let other = template("other", VERSION, BodyEncoding::Utf8, "x");
    match other.validated() {
        Err(e @ MessageFileError::Format(_)) => {
            assert_eq!(e.message(), "unsupported message template format 'other'")
        }
        _ => panic!("expected a format error"),
    }
    assert_eq!(FORMAT, "sift-message");
    assert_eq!(
        MessageFileError::Version(7).message(),
        "unsupported message template version 7"
    );
}

#[test]
fn subsecond_time_to_live_is_kept_in_whole_seconds() {
    let message = OutboundMessage {
        body: "x".to_owned(),
        time_to_live: Some(Duration::new(3, 500_000_000)),
        ..OutboundMessage::default()
    };
    let file = MessageFile::from_outbound(&message);
    assert_eq!(file.ttl_seconds, Some(3));
    let restored = file.to_outbound().unwrap();
    assert_eq!(restored.time_to_live, Some(Duration::from_secs(3)));
}

#[test]
fn gzipped_or_non_utf8_inspected_bodies_are_stored_as_base64() {
    let mut message = SiftMessage {
        sequence_number: 1,
        message_id: None,
        state: MessageState::Active,
        application_properties: Vec::new(),
        body: decode(vec![0xff, 0x00, 0x10]),
        subject: None,
        content_type: None,
        correlation_id: None,
        session_id: None,
        reply_to: None,
        to: None,
        enqueued_time: None,
        expires_at: None,
        time_to_live: None,
        delivery_count: None,
        lock_token: None,
        locked_until: None,
        dead_letter_reason: None,
        dead_letter_error_description: None,
        dead_letter_source: None,
    };
    let file = MessageFile::from_message(&message);
    assert_eq!(file.body.encoding, BodyEncoding::Base64);
    assert_eq!(file.to_outbound().unwrap().payload(), vec![0xff, 0x00, 0x10]);

    message.body = decode(Vec::new());
    let file = MessageFile::from_message(&message);
    assert_eq!(file.body.encoding, BodyEncoding::Utf8);
    assert_eq!(file.body.data, "");
}
