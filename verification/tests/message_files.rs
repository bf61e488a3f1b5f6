use sift::body::{decode, BodyFormat, DecodedBody};
use sift::message::{MessageState, SiftMessage};
use sift::message_file::{
    body_extension, body_file_name, file_stem, saved_body_bytes, template_file_name,
};

fn message(sequence_number: i64, message_id: Option<&str>, body: DecodedBody) -> SiftMessage {
    SiftMessage {
        sequence_number,
        message_id: message_id.map(str::to_owned),
        state: MessageState::Active,
        application_properties: Vec::new(),
        body,
        subject: None,
        content_type: None,
        correlation_id: None,
        session_id: None,
        reply_to: None,
        to: None,
        enqueued_time: None,
        expires_at: None,
        time_to_live: None,
        delivery_count: None,
        lock_token: None,
        locked_until: None,
        dead_letter_reason: None,
        dead_letter_error_description: None,
        dead_letter_source: None,
    }
}

#[test]
fn stem_uses_the_message_id_with_unsafe_characters_replaced() {
    let m = message(7, Some("order/42 v1.0-ok_x"), DecodedBody::empty());
    assert_eq!(file_stem(&m), "order_42_v1_0-ok_x");
    let m = message(7, Some("é"), DecodedBody::empty());
    assert_eq!(file_stem(&m), "_");
}

#[test]
fn stem_falls_back_to_the_sequence_number() {
    assert_eq!(file_stem(&message(42, None, DecodedBody::empty())), "message-42");
    assert_eq!(file_stem(&message(-3, Some(" \t "), DecodedBody::empty())), "message--3");
    assert_eq!(file_stem(&message(0, Some(""), DecodedBody::empty())), "message-0");
}

#[test]
fn extension_follows_compression_then_format() {
    let json = decode(br#"{"a":1}"#.to_vec());
    assert_eq!(json.format, BodyFormat::Json);
    assert_eq!(body_extension(&message(1, None, json)), "json");
    assert_eq!(body_extension(&message(1, None, decode(b"<a/>".to_vec()))), "xml");
    assert_eq!(body_extension(&message(1, None, decode(b"hello".to_vec()))), "txt");
    assert_eq!(body_extension(&message(1, None, decode(vec![0xff, 0x00]))), "bin");
    assert_eq!(body_extension(&message(1, None, DecodedBody::empty())), "bin");
    assert_eq!(body_extension(&message(1, None, DecodedBody::amqp_value("[1]".to_owned()))), "txt");
    let mut gz = decode(b"hello".to_vec());
    gz.gzipped = true;
    assert_eq!(body_extension(&message(1, None, gz)), "gz");
}

#[test]
fn suggested_file_names() {
    let m = message(5, Some("abc"), decode(b"{}".to_vec()));
    assert_eq!(body_file_name(&m), "abc.json");
    assert_eq!(template_file_name(&m), "abc.sift-message.json");
    let m = message(9, None, DecodedBody::empty());
    assert_eq!(body_file_name(&m), "message-9.bin");
}

#[test]
fn saved_body_prefers_original_bytes_then_text() {
    let m = message(1, None, decode(b"plain".to_vec()));
    assert_eq!(saved_body_bytes(&m), b"plain".to_vec());
    let m = message(1, None, DecodedBody::amqp_value("välue".to_owned()));
    assert_eq!(saved_body_bytes(&m), "välue".as_bytes().to_vec());
    let m = message(1, None, DecodedBody::empty());
    assert!(saved_body_bytes(&m).is_empty());
}
