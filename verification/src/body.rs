//! Message body decoding: gzip sniff, then UTF-8, then JSON / XML / text
//! detection, falling back to binary. The raw bytes are always kept.

use vstd::prelude::*;
use std::io::Read;
use base64::Engine;
use vstd::utf8::{decode_utf8, valid_utf8};
use crate::text::{
    decimal, digit_char, digit_to_char, is_ws, is_ws_char, push_chars, push_decimal, push_str,
    str_chars, string_from_chars, trim_start,
};

verus! {

broadcast use vstd::string::group_string_axioms;

/// What the decoder concluded about a body.
#[derive(Clone, Copy, Debug, PartialEq, Eq, Structural)]
pub enum BodyFormat {
    Json,
    Xml,
    Text,
    Binary,
    Empty,
    /// AMQP value/sequence body (not raw bytes); the text is a rendered preview.
    AmqpValue,
}

pub open spec fn format_label(f: BodyFormat) -> Seq<char> {
    match f {
        BodyFormat::Json => "JSON"@,
        BodyFormat::Xml => "XML"@,
        BodyFormat::Text => "text"@,
        BodyFormat::Binary => "binary"@,
        BodyFormat::Empty => "empty"@,
        BodyFormat::AmqpValue => "AMQP value"@,
    }
}

impl BodyFormat {
    pub fn label(self) -> (r: &'static str)
        ensures
            r@ == format_label(self),
    {
        match self {
            BodyFormat::Json => "JSON",
            BodyFormat::Xml => "XML",
            BodyFormat::Text => "text",
            BodyFormat::Binary => "binary",
            BodyFormat::Empty => "empty",
            BodyFormat::AmqpValue => "AMQP value",
        }
    }
}

/// A decoded message body: original bytes plus a textual rendering when the
/// content is text-like.
#[derive(Clone, Debug, PartialEq, Eq)]
pub struct DecodedBody {
    pub format: BodyFormat,
    /// Present for text-like formats; JSON is pretty-printed.
    pub text: Option<String>,
    /// The original (pre-decompression) bytes.
    pub bytes: Vec<u8>,
    /// True when the payload was gzip-compressed and `text` reflects the
    /// decompressed content.
    pub gzipped: bool,
}

pub open spec fn text_view(t: Option<String>) -> Option<Seq<char>> {
    match t {
        Some(s) => Some(s@),
        None => None,
    }
}

impl DecodedBody {
    pub fn empty() -> (r: DecodedBody)
        ensures
            r.format == BodyFormat::Empty,
            r.text is None,
            r.bytes@.len() == 0,
            !r.gzipped,
    {
        DecodedBody { format: BodyFormat::Empty, text: None, bytes: Vec::new(), gzipped: false }
    }

    /// Wrap a rendered AMQP value/sequence body (no raw bytes available).
    pub fn amqp_value(rendered: String) -> (r: DecodedBody)
        ensures
            r.format == BodyFormat::AmqpValue,
            text_view(r.text) == Some(rendered@),
            r.bytes@.len() == 0,
            !r.gzipped,
    {
        DecodedBody {
            format: BodyFormat::AmqpValue,
            text: Some(rendered),
            bytes: Vec::new(),
            gzipped: false,
        }
    }

    /// Size of the raw payload in bytes.
    pub fn size(&self) -> (r: usize)
        ensures
            r == self.bytes@.len(),
    {
        self.bytes.len()
    }
}

// ---- outside decoders ------------------------------------------------------------------

/// Cap on decompressed output, so that a malicious payload cannot balloon
/// memory: 64 MiB.
pub const MAX_DECOMPRESSED: u64 = 67108864;

/// What `flate2`'s gzip decoder yields for these bytes, reading at most
/// `limit` bytes of output; `None` when decoding fails.
pub uninterp spec fn gunzip_capped(bytes: Seq<u8>, limit: u64) -> Option<Seq<u8>>;

/// `flate2::read::GzDecoder`, read to the end through `take(limit)`.
#[verifier::external_body]
fn gunzip(bytes: &[u8], limit: u64) -> (r: Option<Vec<u8>>)
    ensures
        match r {
            Some(v) => gunzip_capped(bytes@, limit) == Some(v@),
            None => gunzip_capped(bytes@, limit) is None,
        },
{
    let mut decoder = flate2::read::GzDecoder::new(bytes).take(limit);
    let mut inflated = Vec::new();
    match decoder.read_to_end(&mut inflated) {
        Ok(_) => Some(inflated),
        Err(_) => None,
    }
}

/// `std::str::from_utf8`: succeeds exactly on valid UTF-8 and decodes it.
#[verifier::external_body]
pub(crate) fn utf8_to_string(bytes: &[u8]) -> (r: Option<String>)
    ensures
        r is Some <==> valid_utf8(bytes@),
        r matches Some(s) ==> s@ == decode_utf8(bytes@),
{
    match std::str::from_utf8(bytes) {
        Ok(s) => Some(s.to_owned()),
        Err(_) => None,
    }
}

/// What `serde_json::from_str::<Value>` and then `to_string_pretty` make of
/// a text: `None` when it is not JSON, `Some(None)` when printing the value
/// fails, else the pretty-printed text.
pub uninterp spec fn json_pretty(text: Seq<char>) -> Option<Option<Seq<char>>>;

/// Parses the text as a JSON value and pretty-prints it.
#[verifier::external_body]
fn json_pretty_print(text: &str) -> (r: Option<Option<String>>)
    ensures
        match r {
            Some(Some(s)) => json_pretty(text@) == Some(Some(s@)),
            Some(None) => json_pretty(text@) == Some(None::<Seq<char>>),
            None => json_pretty(text@) is None,
        },
{
    match serde_json::from_str::<serde_json::Value>(text) {
        Ok(v) => Some(serde_json::to_string_pretty(&v).ok()),
        Err(_) => None,
    }
}

/// What `base64`'s `STANDARD` engine decodes from these bytes.
pub uninterp spec fn base64_standard_decoded(input: Seq<u8>) -> Option<Seq<u8>>;

/// What `base64`'s `URL_SAFE` engine decodes from these bytes.
pub uninterp spec fn base64_url_safe_decoded(input: Seq<u8>) -> Option<Seq<u8>>;

/// `base64::engine::general_purpose::STANDARD.decode`.
#[verifier::external_body]
pub(crate) fn base64_standard_decode(input: &[u8]) -> (r: Option<Vec<u8>>)
    ensures
        match r {
            Some(v) => base64_standard_decoded(input@) == Some(v@),
            None => base64_standard_decoded(input@) is None,
        },
{
    base64::engine::general_purpose::STANDARD.decode(input).ok()
}

/// What `base64`'s `STANDARD` engine encodes these bytes as.
pub uninterp spec fn base64_standard_encoded(bytes: Seq<u8>) -> Seq<char>;

/// `base64::engine::general_purpose::STANDARD.encode`. The engine's decoder
/// reads back exactly the bytes its encoder wrote.
#[verifier::external_body]
pub(crate) fn base64_standard_encode(bytes: &[u8]) -> (r: String)
    ensures
        r@ == base64_standard_encoded(bytes@),
        base64_standard_decoded(vstd::utf8::encode_utf8(r@)) == Some(bytes@),
{
    base64::engine::general_purpose::STANDARD.encode(bytes)
}

/// `base64::engine::general_purpose::URL_SAFE.decode`.
#[verifier::external_body]
fn base64_url_safe_decode(input: &[u8]) -> (r: Option<Vec<u8>>)
    ensures
        match r {
            Some(v) => base64_url_safe_decoded(input@) == Some(v@),
            None => base64_url_safe_decoded(input@) is None,
        },
{
    base64::engine::general_purpose::URL_SAFE.decode(input).ok()
}

// ---- classification --------------------------------------------------------------------

pub open spec fn has_bom(b: Seq<u8>) -> bool {
    b.len() >= 3 && b[0] == 0xef && b[1] == 0xbb && b[2] == 0xbf
}

pub open spec fn spec_strip_bom(b: Seq<u8>) -> Seq<u8> {
    if has_bom(b) {
        b.skip(3)
    } else {
        b
    }
}

/// Unicode general category `Cc`.
pub open spec fn is_control(c: char) -> bool {
    (c as u32) <= 0x1f || (0x7f <= (c as u32) && (c as u32) <= 0x9f)
}

pub open spec fn counts_as_control(c: char) -> bool {
    is_control(c) && c != '\n' && c != '\r' && c != '\t'
}

/// Control characters other than line breaks and tabs among the first `k`.
pub open spec fn control_count(s: Seq<char>) -> nat
    decreases s.len(),
{
    if s.len() == 0 {
        0
    } else {
        control_count(s.drop_last()) + if counts_as_control(s.last()) {
            1nat
        } else {
            0nat
        }
    }
}

/// More than two control characters among the first 512 characters.
pub open spec fn spec_looks_binary(text: Seq<char>) -> bool {
    control_count(if text.len() > 512 {
        text.take(512)
    } else {
        text
    }) > 2
}

/// Format and rendering of a (decompressed) payload.
pub open spec fn spec_classify(bytes: Seq<u8>) -> (BodyFormat, Option<Seq<char>>) {
    let b = spec_strip_bom(bytes);
    if !valid_utf8(b) {
        (BodyFormat::Binary, None)
    } else {
        let text = decode_utf8(b);
        let trimmed = trim_start(text);
        if spec_looks_binary(text) {
            (BodyFormat::Binary, None)
        } else if trimmed.len() > 0 && (trimmed[0] == '{' || trimmed[0] == '[') && json_pretty(
            trimmed,
        ) is Some {
            // A value that cannot be printed is shown as the text itself.
            (BodyFormat::Json, match json_pretty(trimmed)->0 {
                Some(p) => Some(p),
                None => Some(text),
            })
        } else if trimmed.len() > 0 && trimmed[0] == '<' {
            (BodyFormat::Xml, Some(text))
        } else {
            (BodyFormat::Text, Some(text))
        }
    }
}

pub open spec fn is_gzip(bytes: Seq<u8>) -> bool {
    bytes.len() > 2 && bytes[0] == 0x1f && bytes[1] == 0x8b
}

/// The decoded body of a raw payload, as (format, text, gzipped).
pub open spec fn spec_decode(bytes: Seq<u8>) -> (BodyFormat, Option<Seq<char>>, bool) {
    if bytes.len() == 0 {
        (BodyFormat::Empty, None, false)
    } else if is_gzip(bytes) && gunzip_capped(bytes, MAX_DECOMPRESSED) is Some {
        let (f, t) = spec_classify(gunzip_capped(bytes, MAX_DECOMPRESSED)->0);
        (f, t, true)
    } else {
        let (f, t) = spec_classify(bytes);
        (f, t, false)
    }
}

/// Payload without a leading UTF-8 byte-order mark.
pub fn strip_bom(bytes: &[u8]) -> (r: &[u8])
    ensures
        r@ == spec_strip_bom(bytes@),
{
    if bytes.len() >= 3 && bytes[0] == 0xef && bytes[1] == 0xbb && bytes[2] == 0xbf {
        vstd::slice::slice_subrange(bytes, 3, bytes.len())
    } else {
        bytes
    }
}

fn is_control_char(c: char) -> (r: bool)
    ensures
        r == counts_as_control(c),
{
    let u = c as u32;
    (u <= 0x1f || (0x7f <= u && u <= 0x9f)) && c != '\n' && c != '\r' && c != '\t'
}

/// Valid UTF-8 can still be binary in practice; control-character density
/// decides.
pub fn looks_binary(text: &str) -> (r: bool)
    ensures
        r == spec_looks_binary(text@),
{
    let cs = str_chars(text);
    let n = if cs.len() > 512 {
        512
    } else {
        cs.len()
    };
    let mut count: usize = 0;
    let mut i: usize = 0;
    assert(cs@.take(0) =~= Seq::<char>::empty());
    while i < n
        invariant
            i <= n <= cs.len(),
            n <= 512,
            cs@ == text@,
            count == control_count(cs@.take(i as int)),
            count <= i,
        decreases n - i,
    {
        if is_control_char(cs[i]) {
            count = count + 1;
        }
        i = i + 1;
        assert(cs@.take(i as int).drop_last() =~= cs@.take(i - 1));
    }
    assert(cs@.take(n as int) =~= if cs@.len() > 512 {
        cs@.take(512)
    } else {
        cs@
    });
    count > 2
}

/// Classify a byte payload as JSON / XML / plain text / binary.
fn classify(bytes: &[u8]) -> (r: (BodyFormat, Option<String>))
    ensures
        (r.0, text_view(r.1)) == spec_classify(bytes@),
{
    let stripped = strip_bom(bytes);
    let text = match utf8_to_string(stripped) {
        Some(t) => t,
        None => {
            return (BodyFormat::Binary, None);
        },
    };
    if looks_binary(text.as_str()) {
        return (BodyFormat::Binary, None);
    }
    let cs = str_chars(text.as_str());
    let mut a: usize = 0;
    assert(cs@.skip(0) =~= cs@);
    while a < cs.len() && is_ws_char(cs[a])
        invariant
            a <= cs.len(),
            trim_start(cs@) == trim_start(cs@.skip(a as int)),
        decreases cs.len() - a,
    {
        assert(cs@.skip(a as int).drop_first() =~= cs@.skip(a + 1));
        a = a + 1;
    }
    let ghost tr = cs@.skip(a as int);
    assert(trim_start(cs@) == tr) by {
        if tr.len() > 0 {
            assert(tr[0] == cs@[a as int]);
        }
    }
    if a < cs.len() && (cs[a] == '{' || cs[a] == '[') {
        let trimmed = string_from_chars(vstd::slice::slice_subrange(cs.as_slice(), a, cs.len()));
        assert(trimmed@ =~= tr);
        match json_pretty_print(trimmed.as_str()) {
            Some(Some(pretty)) => {
                return (BodyFormat::Json, Some(pretty));
            },
            Some(None) => {
                return (BodyFormat::Json, Some(text));
            },
            None => {},
        }
    }
    if a < cs.len() && cs[a] == '<' {
        return (BodyFormat::Xml, Some(text));
    }
    (BodyFormat::Text, Some(text))
}

/// Decode raw data-section bytes.
pub fn decode(bytes: Vec<u8>) -> (r: DecodedBody)
    ensures
        r.bytes@ == bytes@,
        (r.format, text_view(r.text), r.gzipped) == spec_decode(bytes@),
{
    if bytes.len() == 0 {
        let r = DecodedBody::empty();
        assert(r.bytes@ =~= bytes@);
        return r;
    }
    if bytes.len() > 2 && bytes[0] == 0x1f && bytes[1] == 0x8b {
        match gunzip(bytes.as_slice(), MAX_DECOMPRESSED) {
            Some(inflated) => {
                let (format, text) = classify(inflated.as_slice());
                return DecodedBody { format, text, bytes, gzipped: true };
            },
            None => {},
        }
    }
    let (format, text) = classify(bytes.as_slice());
    DecodedBody { format, text, bytes, gzipped: false }
}

// ---- base64 ----------------------------------------------------------------------------

/// The characters that are not whitespace, in order.
pub open spec fn without_ws(s: Seq<char>) -> Seq<char>
    decreases s.len(),
{
    if s.len() == 0 {
        Seq::empty()
    } else if is_ws(s.last()) {
        without_ws(s.drop_last())
    } else {
        without_ws(s.drop_last()).push(s.last())
    }
}

pub enum Base64Outcome {
    Decoded((BodyFormat, Option<Seq<char>>, bool), Seq<u8>),
    NothingToDecode,
    NotBase64,
}

/// Interpreting text as base64 (standard, then URL-safe alphabet, ignoring
/// whitespace) and decoding the result like any other body.
pub open spec fn spec_decode_base64(text: Seq<char>) -> Base64Outcome {
    let compact = without_ws(text);
    if compact.len() == 0 {
        Base64Outcome::NothingToDecode
    } else if base64_standard_decoded(vstd::utf8::encode_utf8(compact)) is Some {
        let b = base64_standard_decoded(vstd::utf8::encode_utf8(compact))->0;
        Base64Outcome::Decoded(spec_decode(b), b)
    } else if base64_url_safe_decoded(vstd::utf8::encode_utf8(compact)) is Some {
        let b = base64_url_safe_decoded(vstd::utf8::encode_utf8(compact))->0;
        Base64Outcome::Decoded(spec_decode(b), b)
    } else {
        Base64Outcome::NotBase64
    }
}

/// Interpret `text` as base64 and decode it, then classify the result like
/// any other body. Accepts the standard and URL-safe alphabets and ignores
/// whitespace anywhere in the text.
pub fn decode_base64(text: &str) -> (r: Result<DecodedBody, String>)
    ensures
        match spec_decode_base64(text@) {
            Base64Outcome::Decoded(v, b) => r matches Ok(d) && d.bytes@ == b && (
            d.format,
            text_view(d.text),
            d.gzipped,
            ) == v,
            Base64Outcome::NothingToDecode => r matches Err(e) && e@ == "nothing to decode"@,
            Base64Outcome::NotBase64 => r matches Err(e) && e@ == "not valid base64"@,
        },
{
    let cs = str_chars(text);
    let mut compact: Vec<char> = Vec::new();
    let mut i: usize = 0;
    assert(cs@.take(0) =~= Seq::<char>::empty());
    while i < cs.len()
        invariant
            i <= cs.len(),
            cs@ == text@,
            compact@ == without_ws(cs@.take(i as int)),
        decreases cs.len() - i,
    {
        if !is_ws_char(cs[i]) {
            compact.push(cs[i]);
        }
        i = i + 1;
        assert(cs@.take(i as int).drop_last() =~= cs@.take(i - 1));
    }
    assert(cs@.take(i as int) =~= cs@);
    if compact.len() == 0 {
        return Err("nothing to decode".to_owned());
    }
    let trimmed = string_from_chars(compact.as_slice());
    let raw = trimmed.as_str().as_bytes();
    match base64_standard_decode(raw) {
        Some(bytes) => {
            return Ok(decode(bytes));
        },
        None => {},
    }
    match base64_url_safe_decode(raw) {
        Some(bytes) => {
            return Ok(decode(bytes));
        },
        None => {},
    }
    Err("not valid base64".to_owned())
}

// ---- hex dump ----------------------------------------------------------------------------

pub open spec fn hex_digit(d: nat) -> char {
    if d < 10 {
        digit_char(d)
    } else {
        ((d - 10) + 'a' as nat) as char
    }
}

/// Shortest lowercase hexadecimal rendering.
pub open spec fn hex_min(n: nat) -> Seq<char>
    decreases n,
{
    if n < 16 {
        seq![hex_digit(n)]
    } else {
        hex_min(n / 16).push(hex_digit(n % 16))
    }
}

/// Left-padded with zeros to at least `w` characters.
pub open spec fn zero_pad(s: Seq<char>, w: nat) -> Seq<char> {
    if s.len() >= w {
        s
    } else {
        Seq::new((w - s.len()) as nat, |i: int| '0') + s
    }
}

pub open spec fn hex_col(chunk: Seq<u8>, j: nat) -> Seq<char> {
    (if j < chunk.len() {
        zero_pad(hex_min(chunk[j as int] as nat), 2).push(' ')
    } else {
        seq![' ', ' ', ' ']
    }) + if j == 7 {
        seq![' ']
    } else {
        Seq::empty()
    }
}

/// Hex columns `0..k` of a row.
pub open spec fn hex_cols(chunk: Seq<u8>, k: nat) -> Seq<char>
    decreases k,
{
    if k == 0 {
        Seq::empty()
    } else {
        hex_cols(chunk, (k - 1) as nat) + hex_col(chunk, (k - 1) as nat)
    }
}

pub open spec fn printable(b: u8) -> char {
    if 0x20 <= b && b < 0x7f {
        (b as u32) as char
    } else {
        '.'
    }
}

/// One dump row: offset, sixteen hex columns, and the printable rendering.
pub open spec fn dump_line(chunk: Seq<u8>, offset: nat) -> Seq<char> {
    zero_pad(hex_min(offset), 8) + seq![' ', ' '] + hex_cols(chunk, 16) + seq![' ']
        + chunk.map_values(|b: u8| printable(b)) + seq!['\n']
}

pub open spec fn chunk_of(s: Seq<u8>, i: nat) -> Seq<u8> {
    s.subrange(16 * i as int, if 16 * i + 16 <= s.len() {
        16 * i as int + 16
    } else {
        s.len() as int
    })
}

/// Rows for the first `k` chunks of sixteen bytes.
pub open spec fn dump_rows(s: Seq<u8>, k: nat) -> Seq<char>
    decreases k,
{
    if k == 0 {
        Seq::empty()
    } else {
        dump_rows(s, (k - 1) as nat) + dump_line(chunk_of(s, (k - 1) as nat), 16 * (k - 1) as nat)
    }
}

pub open spec fn spec_hex_dump(bytes: Seq<u8>, max_bytes: nat) -> Seq<char> {
    let shown = if bytes.len() <= max_bytes {
        bytes
    } else {
        bytes.take(max_bytes as int)
    };
    let rows = (shown.len() + 15) / 16;
    dump_rows(shown, rows as nat) + if bytes.len() > max_bytes {
        "\u{2026} "@ + decimal((bytes.len() - max_bytes) as nat) + " more bytes"@
    } else {
        Seq::empty()
    }
}

pub(crate) fn hex_digit_char(d: u64) -> (c: char)
    requires
        d < 16,
    ensures
        c == hex_digit(d as nat),
{
    if d < 10 {
        digit_to_char(d)
    } else {
        let b: u8 = (d - 10) as u8 + 97u8;
        b as char
    }
}

fn push_hex_min(out: &mut Vec<char>, n: u64)
    ensures
        final(out)@ == old(out)@ + hex_min(n as nat),
    decreases n,
{
    if n >= 16 {
        push_hex_min(out, n / 16);
    }
    let c = hex_digit_char(n % 16);
    out.push(c);
    proof {
        if n >= 16 {
            assert(hex_min(n as nat) == hex_min((n / 16) as nat).push(hex_digit((n % 16) as nat)));
        }
    }
}

fn push_hex_padded(out: &mut Vec<char>, n: u64, w: usize)
    ensures
        final(out)@ == old(out)@ + zero_pad(hex_min(n as nat), w as nat),
{
    let mut h: Vec<char> = Vec::new();
    push_hex_min(&mut h, n);
    assert(h@ =~= hex_min(n as nat));
    let ghost before = out@;
    if h.len() < w {
        let k = w - h.len();
        let mut i: usize = 0;
        while i < k
            invariant
                i <= k,
                out@ == before + Seq::new(i as nat, |j: int| '0'),
            decreases k - i,
        {
            out.push('0');
            i = i + 1;
            assert(out@ =~= before + Seq::new(i as nat, |j: int| '0'));
        }
    }
    push_chars(out, h.as_slice());
    assert(out@ =~= before + zero_pad(hex_min(n as nat), w as nat));
}

fn printable_char(b: u8) -> (c: char)
    ensures
        c == printable(b),
{
    if 0x20 <= b && b < 0x7f {
        b as char
    } else {
        '.'
    }
}

fn push_line(out: &mut Vec<char>, chunk: &[u8], offset: u64)
    requires
        chunk.len() <= 16,
    ensures
        final(out)@ == old(out)@ + dump_line(chunk@, offset as nat),
{
    let ghost before = out@;
    push_hex_padded(out, offset, 8);
    out.push(' ');
    out.push(' ');
    let ghost mid = out@;
    let mut j: usize = 0;
    while j < 16
        invariant
            j <= 16,
            chunk.len() <= 16,
            out@ == mid + hex_cols(chunk@, j as nat),
        decreases 16 - j,
    {
        let ghost pre = out@;
        if j < chunk.len() {
            push_hex_padded(out, chunk[j] as u64, 2);
            out.push(' ');
        } else {
            out.push(' ');
            out.push(' ');
            out.push(' ');
        }
        if j == 7 {
            out.push(' ');
        }
        assert(out@ =~= pre + hex_col(chunk@, j as nat));
        j = j + 1;
    }
    out.push(' ');
    let ghost mid2 = out@;
    let mut k: usize = 0;
    while k < chunk.len()
        invariant
            k <= chunk.len(),
            out@ == mid2 + chunk@.take(k as int).map_values(|b: u8| printable(b)),
        decreases chunk.len() - k,
    {
        let c = printable_char(chunk[k]);
        out.push(c);
        k = k + 1;
        assert(chunk@.take(k as int).map_values(|b: u8| printable(b)) =~= chunk@.take(
            k - 1,
        ).map_values(|b: u8| printable(b)).push(printable(chunk@[k - 1])));
    }
    assert(chunk@.take(k as int) =~= chunk@);
    out.push('\n');
    assert(out@ =~= before + dump_line(chunk@, offset as nat));
}

/// Render a classic hex dump (offset, hex bytes, ASCII) of at most
/// `max_bytes` bytes, noting how many more there are.
pub fn hex_dump(bytes: &[u8], max_bytes: usize) -> (r: String)
    ensures
        r@ == spec_hex_dump(bytes@, max_bytes as nat),
{
    let n = if bytes.len() <= max_bytes {
        bytes.len()
    } else {
        max_bytes
    };
    let shown = vstd::slice::slice_subrange(bytes, 0, n);
    assert(shown@ =~= if bytes@.len() <= max_bytes {
        bytes@
    } else {
        bytes@.take(max_bytes as int)
    });
    let mut out: Vec<char> = Vec::new();
    let rows = n / 16 + if n % 16 == 0 {
        0
    } else {
        1
    };
    assert(rows == (n + 15) / 16);
    let mut i: usize = 0;
    while i < rows
        invariant
            i <= rows,
            rows == (n + 15) / 16,
            n == shown@.len(),
            out@ == dump_rows(shown@, i as nat),
        decreases rows - i,
    {
        let lo = 16 * i;
        assert(lo < n);
        let hi = if n - lo >= 16 {
            lo + 16
        } else {
            n
        };
        let chunk = vstd::slice::slice_subrange(shown, lo, hi);
        assert(chunk@ =~= chunk_of(shown@, i as nat));
        push_line(&mut out, chunk, lo as u64);
        i = i + 1;
    }
    if bytes.len() > max_bytes {
        push_str(&mut out, "\u{2026} ");
        push_decimal(&mut out, (bytes.len() - max_bytes) as u64);
        push_str(&mut out, " more bytes");
    }
    string_from_chars(out.as_slice())
}


/// A readable UTF-8 payload whose first non-blank character opens a JSON
/// array (`[`) or object (`{`), and that parses as JSON, is classified as
/// JSON and shown pretty-printed (or as its own text when printing fails).
pub proof fn law_json_arrays_and_objects_are_json(bytes: Seq<u8>)
    requires
        valid_utf8(spec_strip_bom(bytes)),
        !spec_looks_binary(decode_utf8(spec_strip_bom(bytes))),
        trim_start(decode_utf8(spec_strip_bom(bytes))).len() > 0,
        trim_start(decode_utf8(spec_strip_bom(bytes)))[0] == '['
            || trim_start(decode_utf8(spec_strip_bom(bytes)))[0] == '{',
        json_pretty(trim_start(decode_utf8(spec_strip_bom(bytes)))) is Some,
    ensures
        spec_classify(bytes).0 == BodyFormat::Json,
        spec_classify(bytes).1 == Some(
            match json_pretty(trim_start(decode_utf8(spec_strip_bom(bytes))))->0 {
                Some(p) => p,
                None => decode_utf8(spec_strip_bom(bytes)),
            },
        ),
{
}

} // verus!
