//! Portable message templates for the import/export workflow.
//!
//! The format is independent of any AMQP implementation type. Binary payloads
//! are base64 encoded so that a template stays portable text. Reading and
//! writing the JSON text itself is the application's part; this module builds
//! templates, checks them, and turns them back into messages.

use vstd::prelude::*;
use crate::body::{
    base64_standard_decode, base64_standard_decoded, base64_standard_encode,
    base64_standard_encoded, text_view, utf8_to_string,
};
use crate::duration::Duration;
use crate::message::{
    OutboundMessage, OutboundView, SiftMessage, clone_opt, props_view, spec_payload,
    spec_to_outbound,
};
use crate::body::BodyFormat;
use crate::text::{
    chars_eq_str, int_decimal, is_ws, is_ws_char, push_decimal, push_int_decimal, push_str,
    str_chars, string_from_chars,
};
use vstd::string::StringSliceAdditionalSpecFns;
use vstd::utf8::encode_utf8;

verus! {

broadcast use vstd::string::group_string_axioms;

/// The `format` tag every template carries.
pub const FORMAT: &'static str = "sift-message";

/// The only template version this library reads and writes.
pub const VERSION: u32 = 1;

/// How a template's body text is to be read.
#[derive(Clone, Copy, Debug, PartialEq, Eq, Structural)]
pub enum BodyEncoding {
    Utf8,
    Base64,
}

/// The body of a template: its encoding and the encoded text.
#[derive(Clone, Debug)]
pub struct MessageFileBody {
    pub encoding: BodyEncoding,
    pub data: String,
}

/// One application property of a template.
#[derive(Clone, Debug)]
pub struct MessageFileProperty {
    pub name: String,
    pub value: String,
}

/// A versioned, reusable message definition.
#[derive(Clone, Debug)]
pub struct MessageFile {
    pub format: String,
    pub version: u32,
    pub body: MessageFileBody,
    pub message_id: Option<String>,
    pub subject: Option<String>,
    pub content_type: Option<String>,
    pub correlation_id: Option<String>,
    pub session_id: Option<String>,
    pub to: Option<String>,
    pub reply_to: Option<String>,
    pub ttl_seconds: Option<u64>,
    pub application_properties: Vec<MessageFileProperty>,
}

/// A template as plain values.
pub struct MessageFileView {
    pub format: Seq<char>,
    pub version: u32,
    pub encoding: BodyEncoding,
    pub data: Seq<char>,
    pub message_id: Option<Seq<char>>,
    pub subject: Option<Seq<char>>,
    pub content_type: Option<Seq<char>>,
    pub correlation_id: Option<Seq<char>>,
    pub session_id: Option<Seq<char>>,
    pub to: Option<Seq<char>>,
    pub reply_to: Option<Seq<char>>,
    pub ttl_seconds: Option<u64>,
    pub application_properties: Seq<(Seq<char>, Seq<char>)>,
}

pub open spec fn file_props_view(p: Seq<MessageFileProperty>) -> Seq<(Seq<char>, Seq<char>)> {
    p.map_values(|q: MessageFileProperty| (q.name@, q.value@))
}

impl View for MessageFile {
    type V = MessageFileView;

    open spec fn view(&self) -> MessageFileView {
        MessageFileView {
            format: self.format@,
            version: self.version,
            encoding: self.body.encoding,
            data: self.body.data@,
            message_id: text_view(self.message_id),
            subject: text_view(self.subject),
            content_type: text_view(self.content_type),
            correlation_id: text_view(self.correlation_id),
            session_id: text_view(self.session_id),
            to: text_view(self.to),
            reply_to: text_view(self.reply_to),
            ttl_seconds: self.ttl_seconds,
            application_properties: file_props_view(self.application_properties@),
        }
    }
}

/// Why a template was refused.
#[derive(Debug)]
pub enum MessageFileError {
    /// The text is not a template in JSON; carries the parser's message.
    Json(String),
    /// The `format` tag is not [`FORMAT`].
    Format(String),
    /// The version is not [`VERSION`].
    Version(u32),
    /// A base64 body does not decode.
    InvalidBase64,
}

pub enum FileErrorView {
    Json(Seq<char>),
    Format(Seq<char>),
    Version(u32),
    InvalidBase64,
}

pub open spec fn file_error_view(e: MessageFileError) -> FileErrorView {
    match e {
        MessageFileError::Json(m) => FileErrorView::Json(m@),
        MessageFileError::Format(f) => FileErrorView::Format(f@),
        MessageFileError::Version(v) => FileErrorView::Version(v),
        MessageFileError::InvalidBase64 => FileErrorView::InvalidBase64,
    }
}

pub open spec fn file_error_message(e: FileErrorView) -> Seq<char> {
    match e {
        FileErrorView::Json(m) => "invalid message template JSON: "@ + m,
        FileErrorView::Format(f) => "unsupported message template format '"@ + f + "'"@,
        FileErrorView::Version(v) => "unsupported message template version "@
            + crate::text::decimal(v as nat),
        FileErrorView::InvalidBase64 => "message template contains invalid base64 body data"@,
    }
}

impl MessageFileError {
    /// The error's message text.
    pub fn message(&self) -> (r: String)
        ensures
            r@ == file_error_message(file_error_view(*self)),
    {
        let mut v: Vec<char> = Vec::new();
        match self {
            MessageFileError::Json(m) => {
                crate::text::push_str(&mut v, "invalid message template JSON: ");
                crate::text::push_str(&mut v, m.as_str());
            },
            MessageFileError::Format(f) => {
                crate::text::push_str(&mut v, "unsupported message template format '");
                crate::text::push_str(&mut v, f.as_str());
                crate::text::push_str(&mut v, "'");
            },
            MessageFileError::Version(n) => {
                crate::text::push_str(&mut v, "unsupported message template version ");
                push_decimal(&mut v, *n as u64);
            },
            MessageFileError::InvalidBase64 => {
                crate::text::push_str(&mut v, "message template contains invalid base64 body data");
            },
        }
        crate::text::string_from_chars(v.as_slice())
    }
}

// ---- building templates --------------------------------------------------------------------

/// A template body holding bytes as base64.
pub open spec fn binary_body_view(bytes: Seq<u8>) -> (BodyEncoding, Seq<char>) {
    (BodyEncoding::Base64, base64_standard_encoded(bytes))
}

fn binary_body(bytes: &[u8]) -> (r: MessageFileBody)
    ensures
        (r.encoding, r.data@) == binary_body_view(bytes@),
        base64_standard_decoded(vstd::utf8::encode_utf8(r.data@)) == Some(bytes@),
{
    MessageFileBody { encoding: BodyEncoding::Base64, data: base64_standard_encode(bytes) }
}

/// A template with the given body and the message's editable fields; the
/// time-to-live is kept in whole seconds.
pub open spec fn spec_with_body(m: OutboundView, body: (BodyEncoding, Seq<char>)) -> MessageFileView {
    MessageFileView {
        format: FORMAT@,
        version: VERSION,
        encoding: body.0,
        data: body.1,
        message_id: m.message_id,
        subject: m.subject,
        content_type: m.content_type,
        correlation_id: m.correlation_id,
        session_id: m.session_id,
        to: m.to,
        reply_to: m.reply_to,
        ttl_seconds: match m.time_to_live {
            Some(d) => Some(d.secs),
            None => None,
        },
        application_properties: m.application_properties,
    }
}

/// The body of a template built from a composed message: its raw bytes in
/// base64 when it has them, else its text.
pub open spec fn outbound_body(m: OutboundView) -> (BodyEncoding, Seq<char>) {
    match m.raw_bytes {
        Some(b) => binary_body_view(b),
        None => (BodyEncoding::Utf8, m.body),
    }
}

pub open spec fn spec_from_outbound(m: OutboundView) -> MessageFileView {
    spec_with_body(m, outbound_body(m))
}

/// The body of a template built from an inspected message: the exact payload
/// bytes, as text when they are valid UTF-8 and not compressed.
pub open spec fn inspected_body(m: SiftMessage) -> (BodyEncoding, Seq<char>) {
    let bytes = m.body.bytes@;
    if m.body.gzipped {
        binary_body_view(bytes)
    } else if bytes.len() == 0 {
        (
            BodyEncoding::Utf8,
            match text_view(m.body.text) {
                Some(t) => t,
                None => Seq::empty(),
            },
        )
    } else if vstd::utf8::valid_utf8(bytes) {
        (BodyEncoding::Utf8, vstd::utf8::decode_utf8(bytes))
    } else {
        binary_body_view(bytes)
    }
}

pub open spec fn spec_from_message(m: SiftMessage) -> MessageFileView {
    spec_with_body(
        OutboundView { message_id: text_view(m.message_id), ..spec_to_outbound(m) },
        inspected_body(m),
    )
}

// ---- checking and restoring ---------------------------------------------------------------

/// What checking a parsed template gives: the template itself, or the first
/// problem found.
pub open spec fn spec_validate(f: MessageFileView) -> Result<MessageFileView, FileErrorView> {
    if f.format != FORMAT@ {
        Err(FileErrorView::Format(f.format))
    } else if f.version != VERSION {
        Err(FileErrorView::Version(f.version))
    } else if f.encoding == BodyEncoding::Base64 && base64_standard_decoded(
        vstd::utf8::encode_utf8(f.data),
    ) is None {
        Err(FileErrorView::InvalidBase64)
    } else {
        Ok(f)
    }
}

/// The message a template describes.
pub open spec fn spec_file_to_outbound(f: MessageFileView) -> Result<OutboundView, FileErrorView> {
    let body = match f.encoding {
        BodyEncoding::Utf8 => Some((f.data, None::<Seq<u8>>)),
        BodyEncoding::Base64 => match base64_standard_decoded(vstd::utf8::encode_utf8(f.data)) {
            Some(b) => Some((Seq::<char>::empty(), Some(b))),
            None => None,
        },
    };
    match body {
        None => Err(FileErrorView::InvalidBase64),
        Some((text, raw)) => Ok(
            OutboundView {
                body: text,
                raw_bytes: raw,
                message_id: f.message_id,
                subject: f.subject,
                content_type: f.content_type,
                correlation_id: f.correlation_id,
                session_id: f.session_id,
                to: f.to,
                reply_to: f.reply_to,
                time_to_live: match f.ttl_seconds {
                    Some(s) => Some(Duration { secs: s, nanos: 0 }),
                    None => None,
                },
                application_properties: f.application_properties,
            },
        ),
    }
}

/// A composed message as a template gives it back: the payload bytes
/// (carried as raw bytes, with an empty text body, when the message had
/// raw bytes), every editable field, and the time-to-live in whole seconds.
pub open spec fn spec_restored(m: OutboundView) -> OutboundView {
    OutboundView {
        body: match m.raw_bytes {
            Some(_) => Seq::empty(),
            None => m.body,
        },
        time_to_live: match m.time_to_live {
            Some(d) => Some(Duration { secs: d.secs, nanos: 0 }),
            None => None,
        },
        ..m
    }
}

/// A composed message saved as a template and read back is the message
/// itself: the same payload bytes, message id, subject, content type,
/// correlation id, session id, recipients and application properties, and
/// the same time-to-live when it is a whole number of seconds. (What
/// [`MessageFile::from_outbound`] builds reads back as `spec_restored`.)
pub proof fn law_template_round_trip(m: OutboundView)
    ensures
        spec_payload(spec_restored(m)) == spec_payload(m),
        spec_restored(m).raw_bytes == m.raw_bytes,
        spec_restored(m).message_id == m.message_id,
        spec_restored(m).subject == m.subject,
        spec_restored(m).content_type == m.content_type,
        spec_restored(m).correlation_id == m.correlation_id,
        spec_restored(m).session_id == m.session_id,
        spec_restored(m).to == m.to,
        spec_restored(m).reply_to == m.reply_to,
        spec_restored(m).application_properties == m.application_properties,
        (m.time_to_live matches Some(d) ==> d.nanos == 0) ==> spec_restored(m).time_to_live == m.time_to_live,
        m.raw_bytes is None && (m.time_to_live matches Some(d) ==> d.nanos == 0) ==> spec_restored(m) == m,
{
}

fn clone_props(p: &Vec<(String, String)>) -> (r: Vec<MessageFileProperty>)
    ensures
        file_props_view(r@) == props_view(p@),
{
    let mut out: Vec<MessageFileProperty> = Vec::new();
    let mut i: usize = 0;
    while i < p.len()
        invariant
            i <= p.len(),
            file_props_view(out@) =~= props_view(p@).take(i as int),
        decreases p.len() - i,
    {
        let (k, v) = &p[i];
        let ghost before = out@;
        out.push(MessageFileProperty { name: k.clone(), value: v.clone() });
        assert(file_props_view(out@) =~= file_props_view(before).push((k@, v@)));
        i = i + 1;
        assert(props_view(p@).take(i as int) =~= props_view(p@).take(i - 1).push((k@, v@)));
    }
    assert(props_view(p@).take(i as int) =~= props_view(p@));
    out
}

fn clone_file_props(p: &Vec<MessageFileProperty>) -> (r: Vec<(String, String)>)
    ensures
        props_view(r@) == file_props_view(p@),
{
    let mut out: Vec<(String, String)> = Vec::new();
    let mut i: usize = 0;
    while i < p.len()
        invariant
            i <= p.len(),
            props_view(out@) =~= file_props_view(p@).take(i as int),
        decreases p.len() - i,
    {
        let q = &p[i];
        let ghost before = out@;
        out.push((q.name.clone(), q.value.clone()));
        assert(props_view(out@) =~= props_view(before).push((q.name@, q.value@)));
        i = i + 1;
        assert(file_props_view(p@).take(i as int) =~= file_props_view(p@).take(i - 1).push(
            (q.name@, q.value@),
        ));
    }
    assert(file_props_view(p@).take(i as int) =~= file_props_view(p@));
    out
}

fn with_body(message: &OutboundMessage, body: MessageFileBody) -> (r: MessageFile)
    ensures
        r@ == spec_with_body(message@, (body.encoding, body.data@)),
{
    let ttl_seconds = match message.time_to_live {
        Some(d) => Some(d.as_secs()),
        None => None,
    };
    MessageFile {
        format: FORMAT.to_owned(),
        version: VERSION,
        body,
        message_id: clone_opt(&message.message_id),
        subject: clone_opt(&message.subject),
        content_type: clone_opt(&message.content_type),
        correlation_id: clone_opt(&message.correlation_id),
        session_id: clone_opt(&message.session_id),
        to: clone_opt(&message.to),
        reply_to: clone_opt(&message.reply_to),
        ttl_seconds,
        application_properties: clone_props(&message.application_properties),
    }
}

impl MessageFile {
    /// Build a template from a composed message. What it builds passes
    /// [`MessageFile::validated`] and gives the message back through
    /// [`MessageFile::to_outbound`].
    pub fn from_outbound(message: &OutboundMessage) -> (r: MessageFile)
        ensures
            r@ == spec_from_outbound(message@),
            spec_validate(r@) == Ok::<MessageFileView, FileErrorView>(r@),
            spec_file_to_outbound(r@) == Ok::<OutboundView, FileErrorView>(
                spec_restored(message@),
            ),
    {
        let body = match &message.raw_bytes {
            Some(bytes) => binary_body(bytes.as_slice()),
            None => MessageFileBody { encoding: BodyEncoding::Utf8, data: message.body.clone() },
        };
        let r = with_body(message, body);
        proof {
            reveal_strlit("sift-message");
        }
        r
    }

    /// Build a template from an inspected message, keeping its exact payload
    /// bytes and its message id: a message with payload bytes is given back
    /// by [`MessageFile::to_outbound`] with exactly those bytes.
    pub fn from_message(message: &SiftMessage) -> (r: MessageFile)
        ensures
            r@ == spec_from_message(*message),
            spec_validate(r@) == Ok::<MessageFileView, FileErrorView>(r@),
            message.body.bytes@.len() > 0 ==> (spec_file_to_outbound(r@) matches Ok(o)
                && spec_payload(o) == message.body.bytes@),
    {
        let mut outbound = message.to_outbound();
        outbound.message_id = clone_opt(&message.message_id);
        let bytes = message.body.bytes.as_slice();
        let body = if message.body.gzipped {
            binary_body(bytes)
        } else if bytes.len() == 0 {
            MessageFileBody {
                encoding: BodyEncoding::Utf8,
                data: match &message.body.text {
                    Some(t) => t.clone(),
                    None => String::new(),
                },
            }
        } else {
            match utf8_to_string(bytes) {
                Some(text) => MessageFileBody { encoding: BodyEncoding::Utf8, data: text },
                None => binary_body(bytes),
            }
        };
        let r = with_body(&outbound, body);
        assert(outbound@ == OutboundView {
            message_id: text_view(message.message_id),
            ..spec_to_outbound(*message)
        });
        proof {
            if bytes@.len() > 0 && !message.body.gzipped && vstd::utf8::valid_utf8(bytes@) {
                vstd::utf8::decode_utf8_encode_utf8(bytes@);
            }
        }
        r
    }

    /// Check a parsed template: the format tag, the version, and that a
    /// base64 body decodes.
    pub fn validated(self) -> (r: Result<MessageFile, MessageFileError>)
        ensures
            match r {
                Ok(f) => spec_validate(self@) == Ok::<MessageFileView, FileErrorView>(f@),
                Err(e) => spec_validate(self@) == Err::<MessageFileView, FileErrorView>(
                    file_error_view(e),
                ),
            },
    {
        let fc = str_chars(self.format.as_str());
        if !chars_eq_str(fc.as_slice(), FORMAT) {
            return Err(MessageFileError::Format(self.format));
        }
        if self.version != VERSION {
            return Err(MessageFileError::Version(self.version));
        }
        if self.body.encoding == BodyEncoding::Base64 {
            if base64_standard_decode(self.body.data.as_str().as_bytes()).is_none() {
                return Err(MessageFileError::InvalidBase64);
            }
        }
        Ok(self)
    }

    /// The message this template describes, ready to edit or send.
    pub fn to_outbound(&self) -> (r: Result<OutboundMessage, MessageFileError>)
        ensures
            match r {
                Ok(m) => spec_file_to_outbound(self@) == Ok::<OutboundView, FileErrorView>(m@),
                Err(e) => spec_file_to_outbound(self@) == Err::<OutboundView, FileErrorView>(
                    file_error_view(e),
                ),
            },
    {
        let (body, raw_bytes) = match self.body.encoding {
            BodyEncoding::Utf8 => (self.body.data.clone(), None),
            BodyEncoding::Base64 => match base64_standard_decode(
                self.body.data.as_str().as_bytes(),
            ) {
                Some(b) => (String::new(), Some(b)),
                None => {
                    return Err(MessageFileError::InvalidBase64);
                },
            },
        };
        let time_to_live = match self.ttl_seconds {
            Some(s) => Some(Duration::from_secs(s)),
            None => None,
        };
        Ok(
            OutboundMessage {
                body,
                raw_bytes,
                message_id: clone_opt(&self.message_id),
                subject: clone_opt(&self.subject),
                content_type: clone_opt(&self.content_type),
                correlation_id: clone_opt(&self.correlation_id),
                session_id: clone_opt(&self.session_id),
                to: clone_opt(&self.to),
                reply_to: clone_opt(&self.reply_to),
                time_to_live,
                application_properties: clone_file_props(&self.application_properties),
            },
        )
    }
}

/// Characters kept as they are in a file name; every other one becomes `_`.
pub open spec fn is_stem_char(c: char) -> bool {
    ('a' <= c && c <= 'z') || ('A' <= c && c <= 'Z') || ('0' <= c && c <= '9') || c == '-'
        || c == '_'
}

pub open spec fn stem_char(c: char) -> char {
    if is_stem_char(c) {
        c
    } else {
        '_'
    }
}

/// Empty or whitespace only.
pub open spec fn is_blank(s: Seq<char>) -> bool {
    forall|i: int| 0 <= i < s.len() ==> is_ws(#[trigger] s[i])
}

/// `message-<sequence number>`.
pub open spec fn fallback_stem(sequence_number: i64) -> Seq<char> {
    "message-"@ + int_decimal(sequence_number as int)
}

/// The file-name stem for a message: its message id unless that is blank,
/// else `message-<sequence number>`, with every character outside
/// `[A-Za-z0-9_-]` replaced by `_`.
pub open spec fn spec_file_stem(message_id: Option<Seq<char>>, sequence_number: i64) -> Seq<
    char,
> {
    let raw = if message_id is Some && !is_blank(message_id->0) {
        message_id->0
    } else {
        fallback_stem(sequence_number)
    };
    let sanitized = raw.map_values(|c: char| stem_char(c));
    if sanitized.len() == 0 {
        fallback_stem(sequence_number)
    } else {
        sanitized
    }
}

fn is_stem_char_exec(c: char) -> (r: bool)
    ensures
        r == is_stem_char(c),
{
    ('a' <= c && c <= 'z') || ('A' <= c && c <= 'Z') || ('0' <= c && c <= '9') || c == '-'
        || c == '_'
}

fn all_blank(s: &[char]) -> (r: bool)
    ensures
        r == is_blank(s@),
{
    let mut i: usize = 0;
    while i < s.len()
        invariant
            i <= s.len(),
            forall|j: int| 0 <= j < i ==> is_ws(#[trigger] s@[j]),
        decreases s.len() - i,
    {
        if !is_ws_char(s[i]) {
            return false;
        }
        i = i + 1;
    }
    true
}

fn push_fallback_stem(out: &mut Vec<char>, sequence_number: i64)
    ensures
        final(out)@ == old(out)@ + fallback_stem(sequence_number),
{
    push_str(out, "message-");
    push_int_decimal(out, sequence_number);
    assert(final(out)@ =~= old(out)@ + fallback_stem(sequence_number));
}

/// The stem of the file names under which a message's body and template are
/// saved.
pub fn file_stem(message: &SiftMessage) -> (r: String)
    ensures
        r@ == spec_file_stem(text_view(message.message_id), message.sequence_number),
{
    let mut raw: Vec<char> = Vec::new();
    let mut have_id = false;
    if let Some(id) = &message.message_id {
        let cs = str_chars(id.as_str());
        if !all_blank(cs.as_slice()) {
            raw = cs;
            have_id = true;
        }
    }
    if !have_id {
        push_fallback_stem(&mut raw, message.sequence_number);
        assert(raw@ =~= fallback_stem(message.sequence_number));
    }
    let mut sanitized: Vec<char> = Vec::new();
    let mut i: usize = 0;
    while i < raw.len()
        invariant
            i <= raw.len(),
            sanitized@ =~= raw@.take(i as int).map_values(|c: char| stem_char(c)),
        decreases raw.len() - i,
    {
        let c = raw[i];
        if is_stem_char_exec(c) {
            sanitized.push(c);
        } else {
            sanitized.push('_');
        }
        i = i + 1;
        assert(raw@.take(i as int) =~= raw@.take(i - 1).push(c));
    }
    assert(raw@.take(i as int) =~= raw@);
    if sanitized.len() == 0 {
        let mut fallback: Vec<char> = Vec::new();
        push_fallback_stem(&mut fallback, message.sequence_number);
        assert(fallback@ =~= fallback_stem(message.sequence_number));
        return string_from_chars(fallback.as_slice());
    }
    string_from_chars(sanitized.as_slice())
}

/// The file extension for a saved body: `gz` for a compressed body, else one
/// that matches the detected format.
pub open spec fn spec_body_extension(gzipped: bool, format: BodyFormat) -> Seq<char> {
    if gzipped {
        "gz"@
    } else {
        match format {
            BodyFormat::Json => "json"@,
            BodyFormat::Xml => "xml"@,
            BodyFormat::Text | BodyFormat::AmqpValue => "txt"@,
            BodyFormat::Binary | BodyFormat::Empty => "bin"@,
        }
    }
}

pub fn body_extension(message: &SiftMessage) -> (r: &'static str)
    ensures
        r@ == spec_body_extension(message.body.gzipped, message.body.format),
{
    if message.body.gzipped {
        return "gz";
    }
    match message.body.format {
        BodyFormat::Json => "json",
        BodyFormat::Xml => "xml",
        BodyFormat::Text | BodyFormat::AmqpValue => "txt",
        BodyFormat::Binary | BodyFormat::Empty => "bin",
    }
}

/// The suggested file name for a saved body: `<stem>.<extension>`.
pub fn body_file_name(message: &SiftMessage) -> (r: String)
    ensures
        r@ == spec_file_stem(text_view(message.message_id), message.sequence_number) + "."@
            + spec_body_extension(message.body.gzipped, message.body.format),
{
    let stem = file_stem(message);
    let mut out = str_chars(stem.as_str());
    push_str(&mut out, ".");
    push_str(&mut out, body_extension(message));
    string_from_chars(out.as_slice())
}

/// The suggested file name for a saved template: `<stem>.sift-message.json`.
pub fn template_file_name(message: &SiftMessage) -> (r: String)
    ensures
        r@ == spec_file_stem(text_view(message.message_id), message.sequence_number)
            + ".sift-message.json"@,
{
    let stem = file_stem(message);
    let mut out = str_chars(stem.as_str());
    push_str(&mut out, ".sift-message.json");
    string_from_chars(out.as_slice())
}

/// The bytes written when a body is saved: the original bytes, or the UTF-8
/// of the text when there are none.
pub open spec fn spec_saved_body(bytes: Seq<u8>, text: Option<Seq<char>>) -> Seq<u8> {
    if bytes.len() == 0 {
        match text {
            Some(t) => encode_utf8(t),
            None => Seq::empty(),
        }
    } else {
        bytes
    }
}

pub fn saved_body_bytes(message: &SiftMessage) -> (r: Vec<u8>)
    ensures
        r@ == spec_saved_body(message.body.bytes@, text_view(message.body.text)),
{
    if message.body.bytes.len() == 0 {
        match &message.body.text {
            Some(t) => {
                let b = t.as_str().as_bytes();
                let mut out: Vec<u8> = Vec::new();
                let mut i: usize = 0;
                while i < b.len()
                    invariant
                        i <= b.len(),
                        out@ == b@.take(i as int),
                    decreases b.len() - i,
                {
                    out.push(b[i]);
                    i = i + 1;
                    assert(b@.take(i as int) =~= b@.take(i - 1).push(b@[i - 1]));
                }
                assert(b@.take(i as int) =~= b@);
                out
            },
            None => Vec::new(),
        }
    } else {
        message.body.bytes.clone()
    }
}

} // verus!
