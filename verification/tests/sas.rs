use sift::sas::{generate, percent_encode, sas_token_value};
use sift::secrets::SecretString;
use sift::timestamp::Timestamp;

fn key() -> SecretString {
    SecretString::from_str("dGVzdC1rZXktbWF0ZXJpYWw=")
}

fn new_year_2026() -> Timestamp {
    Timestamp::of(time::OffsetDateTime::from_unix_timestamp(1_767_225_600).unwrap())
}

#[test]
fn token_has_expected_shape_and_encoding() {
    let token = generate(
        "https://contoso.servicebus.windows.net/myqueue",
        "RootManageSharedAccessKey",
        &key(),
        new_year_2026(),
    );
    // The resource URI must be percent-encoded inside the token.
    assert!(token.value.starts_with(
        "SharedAccessSignature sr=https%3A%2F%2Fcontoso.servicebus.windows.net%2Fmyqueue&sig="
    ));
    assert!(token.value.ends_with("&se=1767225600&skn=RootManageSharedAccessKey"));
    assert_eq!(token.expires_at, new_year_2026());
}

#[test]
fn signing_is_deterministic() {
    let at = new_year_2026();
    let a = generate("sb://ns/q", "n", &key(), at);
    let b = generate("sb://ns/q", "n", &key(), at);
    assert_eq!(a.value, b.value);
}

#[test]
fn different_resources_produce_different_signatures() {
    let at = new_year_2026();
    let a = generate("sb://ns/q1", "n", &key(), at);
    let b = generate("sb://ns/q2", "n", &key(), at);
    assert_ne!(a.value, b.value);
}

#[test]
fn unreserved_characters_are_kept_and_others_encoded() {
    assert_eq!(percent_encode("aZ09-_.~"), "aZ09-_.~");
    assert_eq!(percent_encode("a b/c+d=e"), "a%20b%2Fc%2Bd%3De");
    assert_eq!(percent_encode("é"), "%C3%A9");
    assert_eq!(percent_encode(""), "");
}

#[test]
fn signature_is_an_escaped_base64_code() {
    let value = sas_token_value("sb://ns/q", "n", &key(), 1_767_225_600);
    let sig = value
        .split("&sig=")
        .nth(1)
        .unwrap()
        .split("&se=")
        .next()
        .unwrap()
        .to_owned();
    // base64 of a 32-byte code is 44 characters; '+', '/' and '=' are escaped.
    let unescaped = sig.replace("%2B", "+").replace("%2F", "/").replace("%3D", "=");
    assert_eq!(unescaped.len(), 44);
    assert!(!sig.contains('+') && !sig.contains('/') && !sig.contains('='));
    assert!(value.starts_with("SharedAccessSignature sr=sb%3A%2F%2Fns%2Fq&sig="));
}

#[test]
fn negative_expiry_is_written_with_a_sign() {
    let value = sas_token_value("r", "n", &key(), -5);
    assert!(value.ends_with("&se=-5&skn=n"));
}
