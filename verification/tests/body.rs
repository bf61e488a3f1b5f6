use std::io::Write as _;

use sift::body::{BodyFormat, decode, decode_base64, hex_dump, looks_binary, strip_bom};

#[test]
fn empty_body() {
    assert_eq!(decode(Vec::new()).format, BodyFormat::Empty);
}

#[test]
fn json_is_detected_and_pretty_printed() {
    let decoded = decode(br#"{"order":42,"items":["a","b"]}"#.to_vec());
    assert_eq!(decoded.format, BodyFormat::Json);
    let text = decoded.text.unwrap();
    assert!(text.contains("\"order\": 42"));
    assert!(text.contains('\n'));
}

#[test]
fn invalid_json_starting_with_brace_falls_back_to_text() {
    let decoded = decode(b"{not json at all".to_vec());
    assert_eq!(decoded.format, BodyFormat::Text);
}

#[test]
fn xml_is_detected() {
    let decoded = decode(b"<order id=\"42\"><item/></order>".to_vec());
    assert_eq!(decoded.format, BodyFormat::Xml);
}

#[test]
fn bom_is_stripped() {
    let decoded = decode(b"\xef\xbb\xbf{\"a\":1}".to_vec());
    assert_eq!(decoded.format, BodyFormat::Json);
}

#[test]
fn binary_is_detected() {
    let decoded = decode(vec![0x00, 0x01, 0x02, 0xff, 0xfe, 0x40]);
    assert_eq!(decoded.format, BodyFormat::Binary);
    assert!(decoded.text.is_none());
}

#[test]
fn gzip_payload_is_inflated_and_classified() {
    let mut encoder = flate2::write::GzEncoder::new(Vec::new(), flate2::Compression::default());
    encoder.write_all(br#"{"compressed":true}"#).unwrap();
    let gz = encoder.finish().unwrap();

    let decoded = decode(gz.clone());
    assert!(decoded.gzipped);
    assert_eq!(decoded.format, BodyFormat::Json);
    // Raw bytes stay compressed for fidelity.
    assert_eq!(decoded.bytes, gz);
}

#[test]
fn base64_decodes_and_reclassifies() {
    // base64 of {"a":1}
    let decoded = decode_base64("eyJhIjoxfQ==").unwrap();
    assert_eq!(decoded.format, BodyFormat::Json);
    assert!(decoded.text.unwrap().contains("\"a\": 1"));
}

#[test]
fn base64_tolerates_whitespace_and_rejects_garbage() {
    assert!(decode_base64("eyJhIjox\n  fQ==").is_ok());
    assert!(decode_base64("not base64!!!").is_err());
    assert!(decode_base64("   ").is_err());
}

#[test]
fn hex_dump_shape() {
    let dump = hex_dump(&[0x48, 0x65, 0x6c, 0x6c, 0x6f, 0x00], 1024);
    assert!(dump.starts_with("00000000  48 65 6c 6c 6f 00"));
    assert!(dump.contains("Hello."));
}

#[test]
fn hex_dump_truncates() {
    let dump = hex_dump(&[0u8; 64], 32);
    assert!(dump.contains("… 32 more bytes"));
}

#[test]
fn base64_errors_name_the_problem() {
    assert_eq!(decode_base64("  \n ").unwrap_err(), "nothing to decode");
    assert_eq!(decode_base64("%%%").unwrap_err(), "not valid base64");
}

#[test]
fn url_safe_base64_is_accepted() {
    // "?>?" encodes to "Pz4/" in the standard alphabet and "Pz4_" in the URL-safe one.
    let decoded = decode_base64("Pz4_").unwrap();
    assert_eq!(decoded.bytes, b"?>?".to_vec());
}

#[test]
fn bom_is_removed_only_at_the_start() {
    assert_eq!(strip_bom(b"\xef\xbb\xbfabc"), b"abc");
    assert_eq!(strip_bom(b"a\xef\xbb\xbf"), b"a\xef\xbb\xbf");
    assert_eq!(strip_bom(b""), b"");
}

#[test]
fn control_characters_mark_text_as_binary() {
    assert!(!looks_binary("plain text\nwith lines\tand tabs\r\n"));
    assert!(looks_binary("\u{1}\u{2}\u{3}abc"));
    assert!(!looks_binary(""));
}

#[test]
fn hex_dump_of_seventeen_bytes_has_two_rows() {
    let dump = hex_dump(&[0x41u8; 17], 1024);
    assert_eq!(dump.lines().count(), 2);
    assert!(dump.lines().nth(1).unwrap().starts_with("00000010  41"));
}

#[test]
fn gzip_with_broken_stream_is_classified_raw() {
    let bytes = vec![0x1f, 0x8b, 0x08, 0x00, 0x01];
    let decoded = decode(bytes.clone());
    assert!(!decoded.gzipped);
    assert_eq!(decoded.format, BodyFormat::Binary);
    assert_eq!(decoded.bytes, bytes);
}
