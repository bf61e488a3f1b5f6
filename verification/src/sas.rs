//! Shared Access Signature tokens.
//!
//! ```text
//! sr    = percent_encode(resource_uri)     // RFC 3986: unreserved characters kept
//! se    = unix_seconds(expiry)
//! sig   = base64(HMAC-SHA256(key, sr + "\n" + se))
//! token = "SharedAccessSignature sr={sr}&sig={percent_encode(sig)}&se={se}&skn={key_name}"
//! ```
//!
//! The `sr` in the token is the very string that was signed: one encoder
//! produces both.

use vstd::prelude::*;
use crate::timestamp::Timestamp;
use hmac::{Hmac, KeyInit, Mac};
use crate::body::{base64_standard_encode, base64_standard_encoded};
use crate::secrets::SecretString;
use crate::text::{digit_char, int_decimal, push_int_decimal, push_str, string_from_chars};

verus! {

broadcast use vstd::string::group_string_axioms;

// ---- percent-encoding ---------------------------------------------------------------------

/// RFC 3986 unreserved characters: ASCII letters and digits and `-_.~`.
pub open spec fn is_unreserved(b: u8) -> bool {
    (0x30 <= b <= 0x39) || (0x41 <= b <= 0x5a) || (0x61 <= b <= 0x7a) || b == 0x2d || b == 0x5f
        || b == 0x2e || b == 0x7e
}

pub open spec fn hex_upper(d: nat) -> char {
    if d < 10 {
        digit_char(d)
    } else {
        ((d - 10) + 'A' as nat) as char
    }
}

/// One byte: itself when unreserved, else `%` and two upper-case hex digits.
pub open spec fn pct_byte(b: u8) -> Seq<char> {
    if is_unreserved(b) {
        seq![b as char]
    } else {
        seq!['%', hex_upper((b / 16) as nat), hex_upper((b % 16) as nat)]
    }
}

pub open spec fn pct_bytes(bs: Seq<u8>) -> Seq<char>
    decreases bs.len(),
{
    if bs.len() == 0 {
        Seq::empty()
    } else {
        pct_bytes(bs.drop_last()) + pct_byte(bs.last())
    }
}

/// Strict percent-encoding of the UTF-8 bytes of `s`.
pub open spec fn percent_encoded(s: Seq<char>) -> Seq<char> {
    pct_bytes(vstd::utf8::encode_utf8(s))
}

fn hex_upper_char(d: u8) -> (c: char)
    requires
        d < 16,
    ensures
        c == hex_upper(d as nat),
{
    if d < 10 {
        (d + 48) as char
    } else {
        (d + 55) as char
    }
}

/// Percent-encode every UTF-8 byte of `s` except the RFC 3986 unreserved
/// characters (the same output as the `percent-encoding` crate's
/// `utf8_percent_encode` over `NON_ALPHANUMERIC` minus `-_.~`).
pub fn percent_encode(s: &str) -> (r: String)
    ensures
        r@ == percent_encoded(s@),
{
    let bytes = s.as_bytes();
    let mut out: Vec<char> = Vec::new();
    let mut i: usize = 0;
    while i < bytes.len()
        invariant
            i <= bytes.len(),
            bytes@ == vstd::utf8::encode_utf8(s@),
            out@ == pct_bytes(bytes@.take(i as int)),
        decreases bytes.len() - i,
    {
        let b = bytes[i];
        if (0x30 <= b && b <= 0x39) || (0x41 <= b && b <= 0x5a) || (0x61 <= b && b <= 0x7a)
            || b == 0x2d || b == 0x5f || b == 0x2e || b == 0x7e {
            out.push(b as char);
        } else {
            out.push('%');
            out.push(hex_upper_char(b / 16));
            out.push(hex_upper_char(b % 16));
        }
        i = i + 1;
        assert(bytes@.take(i as int).drop_last() =~= bytes@.take(i - 1));
        assert(out@ =~= pct_bytes(bytes@.take(i as int)));
    }
    assert(bytes@.take(i as int) =~= bytes@);
    string_from_chars(out.as_slice())
}

// ---- signing ---------------------------------------------------------------------------------

/// HMAC-SHA256 of `msg` under `key`, as computed by the `hmac` and `sha2`
/// crates.
pub uninterp spec fn hmac_sha256(key: Seq<u8>, msg: Seq<u8>) -> Seq<u8>;

/// `Hmac::<Sha256>::new_from_slice`, `update`, `finalize().into_bytes()`.
/// HMAC takes keys of any length, and SHA-256 codes are 32 bytes long.
#[verifier::external_body]
fn hmac_sha256_sign(key: &[u8], msg: &[u8]) -> (r: Vec<u8>)
    ensures
        r@ == hmac_sha256(key@, msg@),
        r@.len() == 32,
{
    let mut mac = <Hmac<sha2::Sha256> as KeyInit>::new_from_slice(key).expect(
        "HMAC takes keys of any length",
    );
    mac.update(msg);
    mac.finalize().into_bytes().as_slice().to_vec()
}

/// The text that is signed: the encoded resource, a newline, the expiry.
pub open spec fn string_to_sign(sr: Seq<char>, se: i64) -> Seq<char> {
    sr + seq!['\n'] + int_decimal(se as int)
}

/// The signature part of a token, percent-encoded.
pub open spec fn spec_signature(resource_uri: Seq<char>, key: Seq<char>, se: i64) -> Seq<char> {
    let sr = percent_encoded(resource_uri);
    let mac = hmac_sha256(
        vstd::utf8::encode_utf8(key),
        vstd::utf8::encode_utf8(string_to_sign(sr, se)),
    );
    percent_encoded(base64_standard_encoded(mac))
}

/// A SAS token's text for a resource, key and expiry (unix seconds).
pub open spec fn spec_sas_value(resource_uri: Seq<char>, key_name: Seq<char>, key: Seq<char>, se: i64) -> Seq<char> {
    "SharedAccessSignature sr="@ + percent_encoded(resource_uri) + "&sig="@ + spec_signature(
        resource_uri,
        key,
        se,
    ) + "&se="@ + int_decimal(se as int) + "&skn="@ + key_name
}

/// The text of a SAS token for `resource_uri` that expires at `expires_unix`
/// (seconds since the Unix epoch).
pub fn sas_token_value(resource_uri: &str, key_name: &str, key: &SecretString, expires_unix: i64) -> (r: String)
    ensures
        r@ == spec_sas_value(resource_uri@, key_name@, key@, expires_unix),
{
    let sr = percent_encode(resource_uri);
    let mut to_sign: Vec<char> = Vec::new();
    push_str(&mut to_sign, sr.as_str());
    to_sign.push('\n');
    push_int_decimal(&mut to_sign, expires_unix);
    let to_sign_text = string_from_chars(to_sign.as_slice());
    assert(to_sign_text@ =~= string_to_sign(sr@, expires_unix));
    let mac = hmac_sha256_sign(key.expose().as_bytes(), to_sign_text.as_str().as_bytes());
    let signature = base64_standard_encode(mac.as_slice());
    let sig = percent_encode(signature.as_str());
    let mut out: Vec<char> = Vec::new();
    push_str(&mut out, "SharedAccessSignature sr=");
    push_str(&mut out, sr.as_str());
    push_str(&mut out, "&sig=");
    push_str(&mut out, sig.as_str());
    push_str(&mut out, "&se=");
    push_int_decimal(&mut out, expires_unix);
    push_str(&mut out, "&skn=");
    push_str(&mut out, key_name);
    let r = string_from_chars(out.as_slice());
    assert(r@ =~= spec_sas_value(resource_uri@, key_name@, key@, expires_unix));
    r
}

/// The resource named in a token is the very text that was signed: one
/// encoder produces both.
pub proof fn law_token_names_the_signed_resource(resource_uri: Seq<char>, key_name: Seq<char>, key: Seq<char>, se: i64)
    ensures
        ({
            let sr = percent_encoded(resource_uri);
            let token = spec_sas_value(resource_uri, key_name, key, se);
            &&& token.subrange(25, 25 + sr.len() as int) == sr
            &&& string_to_sign(sr, se).take(sr.len() as int) == sr
        }),
{
    reveal_strlit("SharedAccessSignature sr=");
    let sr = percent_encoded(resource_uri);
    let token = spec_sas_value(resource_uri, key_name, key, se);
    assert("SharedAccessSignature sr="@.len() == 25);
    assert(token.subrange(25, 25 + sr.len() as int) =~= sr);
    assert(string_to_sign(sr, se).take(sr.len() as int) =~= sr);
}

// ---- tokens ------------------------------------------------------------------------------------

/// A minted SAS token and its expiry.
#[derive(Clone, Debug)]
pub struct SasToken {
    pub value: String,
    pub expires_at: Timestamp,
}

/// Compute a SAS token for `resource_uri` expiring at `expires_at` (its
/// `se` is the expiry's Unix seconds).
pub fn generate(resource_uri: &str, key_name: &str, key: &SecretString, expires_at: Timestamp) -> (r: SasToken)
    ensures
        r.expires_at == expires_at,
        r.value@ == spec_sas_value(resource_uri@, key_name@, key@, expires_at.unix_seconds),
{
    let se = expires_at.unix_seconds;
    let value = sas_token_value(resource_uri, key_name, key, se);
    SasToken { value, expires_at }
}


/// A token is `SharedAccessSignature sr=<sr>&sig=<sig>&se=<se>&skn=<key
/// name>`, where `sr` is the percent-encoded resource, `se` the expiry in
/// decimal, and `sig` the percent-encoded base64 HMAC-SHA256, under the
/// key's UTF-8 bytes, of the UTF-8 text `sr`, a newline and `se`: both the
/// resource and the expiry written in the token are signed.
pub proof fn law_signature_covers_resource_and_expiry(resource_uri: Seq<char>, key_name: Seq<char>, key: Seq<char>, se: i64)
    ensures
        ({
            let sr = percent_encoded(resource_uri);
            let se_text = int_decimal(se as int);
            let sig = percent_encoded(
                base64_standard_encoded(
                    hmac_sha256(
                        vstd::utf8::encode_utf8(key),
                        vstd::utf8::encode_utf8(sr + seq!['\n'] + se_text),
                    ),
                ),
            );
            spec_sas_value(resource_uri, key_name, key, se) == "SharedAccessSignature sr="@ + sr
                + "&sig="@ + sig + "&se="@ + se_text + "&skn="@ + key_name
        }),
{
}

} // verus!
