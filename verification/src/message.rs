//! The message view-model: messages as peeked or received (decoded for
//! display) and messages composed for sending.

use vstd::prelude::*;
use crate::body::{DecodedBody, text_view};
use crate::duration::Duration;
use crate::timestamp::Timestamp;
use crate::text::{chars_eq_str, decimal, push_decimal, push_str, str_chars, string_from_chars};

verus! {

broadcast use vstd::string::group_string_axioms;


/// Message state as reported by peek.
#[derive(Clone, Copy, Debug, PartialEq, Eq, Structural)]
pub enum MessageState {
    Active,
    Deferred,
    Scheduled,
}

pub open spec fn state_label(s: MessageState) -> Seq<char> {
    match s {
        MessageState::Active => "active"@,
        MessageState::Deferred => "deferred"@,
        MessageState::Scheduled => "scheduled"@,
    }
}

impl MessageState {
    pub fn label(self) -> (r: &'static str)
        ensures
            r@ == state_label(self),
    {
        match self {
            MessageState::Active => "active",
            MessageState::Deferred => "deferred",
            MessageState::Scheduled => "scheduled",
        }
    }
}

/// A peeked or received message, decoded for display.
#[derive(Clone, Debug)]
pub struct SiftMessage {
    pub sequence_number: i64,
    pub message_id: Option<String>,
    pub subject: Option<String>,
    pub content_type: Option<String>,
    pub correlation_id: Option<String>,
    pub session_id: Option<String>,
    pub reply_to: Option<String>,
    pub to: Option<String>,
    pub enqueued_time: Option<Timestamp>,
    pub expires_at: Option<Timestamp>,
    pub time_to_live: Option<Duration>,
    pub delivery_count: Option<u32>,
    pub state: MessageState,
    /// Present only for messages received in peek-lock mode.
    pub lock_token: Option<String>,
    pub locked_until: Option<Timestamp>,
    pub dead_letter_reason: Option<String>,
    pub dead_letter_error_description: Option<String>,
    pub dead_letter_source: Option<String>,
    /// Custom properties rendered as strings for display.
    pub application_properties: Vec<(String, String)>,
    pub body: DecodedBody,
}

/// A message to send.
#[derive(Clone, Debug)]
pub struct OutboundMessage {
    /// Text body; used unless `raw_bytes` is set.
    pub body: String,
    /// Original bytes for resending non-text bodies verbatim.
    pub raw_bytes: Option<Vec<u8>>,
    pub message_id: Option<String>,
    pub subject: Option<String>,
    pub content_type: Option<String>,
    pub correlation_id: Option<String>,
    pub session_id: Option<String>,
    pub to: Option<String>,
    pub reply_to: Option<String>,
    pub time_to_live: Option<Duration>,
    /// Custom properties, sent as strings.
    pub application_properties: Vec<(String, String)>,
}

pub open spec fn props_view(p: Seq<(String, String)>) -> Seq<(Seq<char>, Seq<char>)> {
    p.map_values(|kv: (String, String)| (kv.0@, kv.1@))
}

pub open spec fn bytes_opt(o: Option<Vec<u8>>) -> Option<Seq<u8>> {
    match o {
        Some(v) => Some(v@),
        None => None,
    }
}

/// An outbound message as plain values.
pub struct OutboundView {
    pub body: Seq<char>,
    pub raw_bytes: Option<Seq<u8>>,
    pub message_id: Option<Seq<char>>,
    pub subject: Option<Seq<char>>,
    pub content_type: Option<Seq<char>>,
    pub correlation_id: Option<Seq<char>>,
    pub session_id: Option<Seq<char>>,
    pub to: Option<Seq<char>>,
    pub reply_to: Option<Seq<char>>,
    pub time_to_live: Option<Duration>,
    pub application_properties: Seq<(Seq<char>, Seq<char>)>,
}

impl View for OutboundMessage {
    type V = OutboundView;

    open spec fn view(&self) -> OutboundView {
        OutboundView {
            body: self.body@,
            raw_bytes: bytes_opt(self.raw_bytes),
            message_id: text_view(self.message_id),
            subject: text_view(self.subject),
            content_type: text_view(self.content_type),
            correlation_id: text_view(self.correlation_id),
            session_id: text_view(self.session_id),
            to: text_view(self.to),
            reply_to: text_view(self.reply_to),
            time_to_live: self.time_to_live,
            application_properties: props_view(self.application_properties@),
        }
    }
}

impl Default for OutboundMessage {
    fn default() -> (r: Self)
        ensures
            r@.body.len() == 0,
            r@.raw_bytes is None,
            r@.message_id is None,
            r@.subject is None,
            r@.content_type is None,
            r@.correlation_id is None,
            r@.session_id is None,
            r@.to is None,
            r@.reply_to is None,
            r@.time_to_live is None,
            r@.application_properties.len() == 0,
    {
        OutboundMessage {
            body: String::new(),
            raw_bytes: None,
            message_id: None,
            subject: None,
            content_type: None,
            correlation_id: None,
            session_id: None,
            to: None,
            reply_to: None,
            time_to_live: None,
            application_properties: Vec::new(),
        }
    }
}

/// The bytes a message puts on the wire: the raw bytes when present, else the
/// UTF-8 encoding of the text body.
pub open spec fn spec_payload(m: OutboundView) -> Seq<u8> {
    match m.raw_bytes {
        Some(b) => b,
        None => vstd::utf8::encode_utf8(m.body),
    }
}

/// A copy of a property list.
pub fn clone_props(p: &Vec<(String, String)>) -> (r: Vec<(String, String)>)
    ensures
        props_view(r@) == props_view(p@),
{
    let mut out: Vec<(String, String)> = Vec::new();
    let mut i: usize = 0;
    while i < p.len()
        invariant
            i <= p.len(),
            props_view(out@) =~= props_view(p@).take(i as int),
        decreases p.len() - i,
    {
        let (k, v) = &p[i];
        let ghost before = out@;
        out.push((k.clone(), v.clone()));
        assert(props_view(out@) =~= props_view(before).push((k@, v@)));
        i = i + 1;
        assert(props_view(p@).take(i as int) =~= props_view(p@).take(i - 1).push((k@, v@)));
    }
    assert(props_view(p@).take(i as int) =~= props_view(p@));
    out
}

impl OutboundMessage {
    /// A copy with the same contents.
    pub fn duplicate(&self) -> (r: OutboundMessage)
        ensures
            r@ == self@,
    {
        OutboundMessage {
            body: self.body.clone(),
            raw_bytes: match &self.raw_bytes {
                Some(b) => Some(vstd::slice::slice_to_vec(b.as_slice())),
                None => None,
            },
            message_id: clone_opt(&self.message_id),
            subject: clone_opt(&self.subject),
            content_type: clone_opt(&self.content_type),
            correlation_id: clone_opt(&self.correlation_id),
            session_id: clone_opt(&self.session_id),
            to: clone_opt(&self.to),
            reply_to: clone_opt(&self.reply_to),
            time_to_live: self.time_to_live,
            application_properties: clone_props(&self.application_properties),
        }
    }

    /// The bytes that will actually be sent.
    pub fn payload(&self) -> (r: Vec<u8>)
        ensures
            r@ == spec_payload(self@),
    {
        match &self.raw_bytes {
            Some(b) => vstd::slice::slice_to_vec(b.as_slice()),
            None => vstd::slice::slice_to_vec(self.body.as_str().as_bytes()),
        }
    }
}

/// Dead-letter metadata the broker stores as application properties.
pub open spec fn spec_is_dead_letter_property(key: Seq<char>) -> bool {
    key == "DeadLetterReason"@ || key == "DeadLetterErrorDescription"@ || key
        == "DeadLetterSource"@
}

/// Whether an application property is dead-letter metadata that must not be
/// carried onto a resubmitted message.
pub fn is_dead_letter_property(key: &str) -> (r: bool)
    ensures
        r == spec_is_dead_letter_property(key@),
{
    let cs = str_chars(key);
    chars_eq_str(cs.as_slice(), "DeadLetterReason") || chars_eq_str(
        cs.as_slice(),
        "DeadLetterErrorDescription",
    ) || chars_eq_str(cs.as_slice(), "DeadLetterSource")
}

/// The properties that are not dead-letter metadata, in order.
pub open spec fn user_properties(p: Seq<(Seq<char>, Seq<char>)>) -> Seq<(Seq<char>, Seq<char>)>
    decreases p.len(),
{
    if p.len() == 0 {
        Seq::empty()
    } else if spec_is_dead_letter_property(p.last().0) {
        user_properties(p.drop_last())
    } else {
        user_properties(p.drop_last()).push(p.last())
    }
}

/// Prefill for resending a message: body and user-settable properties, no
/// system properties (a fresh message id) and no dead-letter metadata.
pub open spec fn spec_to_outbound(m: SiftMessage) -> OutboundView {
    OutboundView {
        body: match text_view(m.body.text) {
            Some(t) => t,
            None => Seq::empty(),
        },
        raw_bytes: if m.body.text is None {
            Some(m.body.bytes@)
        } else {
            None
        },
        message_id: None,
        subject: text_view(m.subject),
        content_type: text_view(m.content_type),
        correlation_id: text_view(m.correlation_id),
        session_id: text_view(m.session_id),
        to: text_view(m.to),
        reply_to: text_view(m.reply_to),
        time_to_live: m.time_to_live,
        application_properties: user_properties(props_view(m.application_properties@)),
    }
}

pub fn clone_opt(o: &Option<String>) -> (r: Option<String>)
    ensures
        text_view(r) == text_view(*o),
{
    match o {
        Some(s) => Some(s.clone()),
        None => None,
    }
}

impl SiftMessage {
    /// Prefill an outbound message from this one (resend / resubmit).
    pub fn to_outbound(&self) -> (r: OutboundMessage)
        ensures
            r@ == spec_to_outbound(*self),
    {
        let body = match &self.body.text {
            Some(t) => t.clone(),
            None => String::new(),
        };
        let raw_bytes = if self.body.text.is_none() {
            Some(vstd::slice::slice_to_vec(self.body.bytes.as_slice()))
        } else {
            None
        };
        let mut props: Vec<(String, String)> = Vec::new();
        let mut i: usize = 0;
        let ghost all = props_view(self.application_properties@);
        assert(all.take(0) =~= Seq::<(Seq<char>, Seq<char>)>::empty());
        while i < self.application_properties.len()
            invariant
                i <= self.application_properties.len(),
                all == props_view(self.application_properties@),
                props_view(props@) == user_properties(all.take(i as int)),
            decreases self.application_properties.len() - i,
        {
            let (k, v) = &self.application_properties[i];
            if !is_dead_letter_property(k.as_str()) {
                let ghost before = props@;
                props.push((k.clone(), v.clone()));
                assert(props_view(props@) =~= props_view(before).push(all[i as int]));
            }
            i = i + 1;
            assert(all.take(i as int).drop_last() =~= all.take(i - 1));
        }
        assert(all.take(i as int) =~= all);
        OutboundMessage {
            body,
            raw_bytes,
            message_id: None,
            subject: clone_opt(&self.subject),
            content_type: clone_opt(&self.content_type),
            correlation_id: clone_opt(&self.correlation_id),
            session_id: clone_opt(&self.session_id),
            to: clone_opt(&self.to),
            reply_to: clone_opt(&self.reply_to),
            time_to_live: self.time_to_live,
            application_properties: props,
        }
    }
}

// ---- display of timestamps ------------------------------------------------------------

/// `n` zeros.
pub open spec fn zeros(n: int) -> Seq<char>
    decreases n,
{
    if n <= 0 {
        Seq::empty()
    } else {
        zeros(n - 1).push('0')
    }
}

/// The decimal digits of `v`, zero-padded on the left to `width`.
pub open spec fn pad_nat(v: nat, width: int) -> Seq<char> {
    zeros(width - decimal(v).len()) + decimal(v)
}

/// An integer zero-padded to `width` characters, the sign counted in the
/// width and placed before the zeros.
pub open spec fn pad_int(v: int, width: int) -> Seq<char> {
    if v < 0 {
        seq!['-'] + pad_nat((-v) as nat, width - 1)
    } else {
        pad_nat(v as nat, width)
    }
}

/// `YYYY-MM-DD hh:mm:ss`.
pub open spec fn spec_format_time(year: i32, month: u8, day: u8, hour: u8, minute: u8, second: u8) -> Seq<char> {
    pad_int(year as int, 4) + "-"@ + pad_nat(month as nat, 2) + "-"@ + pad_nat(day as nat, 2) + " "@
        + pad_nat(hour as nat, 2) + ":"@ + pad_nat(minute as nat, 2) + ":"@ + pad_nat(second as nat, 2)
}

/// Appends `v` zero-padded to `width` digits.
fn push_padded(out: &mut Vec<char>, v: u64, width: usize)
    ensures
        final(out)@ == old(out)@ + pad_nat(v as nat, width as int),
{
    let mut digits: Vec<char> = Vec::new();
    push_decimal(&mut digits, v);
    assert(digits@ =~= decimal(v as nat));
    let mut z: usize = 0;
    let pad: usize = if digits.len() < width { width - digits.len() } else { 0 };
    while z < pad
        invariant
            z <= pad,
            out@ == old(out)@ + zeros(z as int),
        decreases pad - z,
    {
        out.push('0');
        z = z + 1;
    }
    assert(zeros(pad as int) =~= zeros(width - decimal(v as nat).len()));
    push_chars_vec(out, &digits);
    assert(final(out)@ =~= old(out)@ + pad_nat(v as nat, width as int));
}

fn push_chars_vec(out: &mut Vec<char>, s: &Vec<char>)
    ensures
        final(out)@ == old(out)@ + s@,
{
    let mut i: usize = 0;
    while i < s.len()
        invariant
            i <= s.len(),
            out@ == old(out)@ + s@.take(i as int),
        decreases s.len() - i,
    {
        out.push(s[i]);
        i = i + 1;
        assert(s@.take(i as int) =~= s@.take(i - 1).push(s@[i - 1]));
    }
    assert(s@.take(i as int) =~= s@);
}

/// A timestamp's calendar parts shown as `YYYY-MM-DD hh:mm:ss`.
pub fn format_time_parts(year: i32, month: u8, day: u8, hour: u8, minute: u8, second: u8) -> (r: String)
    ensures
        r@ == spec_format_time(year, month, day, hour, minute, second),
{
    let mut v: Vec<char> = Vec::new();
    if year < 0 {
        v.push('-');
        let magnitude: u64 = (-(year as i64)) as u64;
        push_padded(&mut v, magnitude, 3);
    } else {
        push_padded(&mut v, year as u64, 4);
    }
    push_str(&mut v, "-");
    push_padded(&mut v, month as u64, 2);
    push_str(&mut v, "-");
    push_padded(&mut v, day as u64, 2);
    push_str(&mut v, " ");
    push_padded(&mut v, hour as u64, 2);
    push_str(&mut v, ":");
    push_padded(&mut v, minute as u64, 2);
    push_str(&mut v, ":");
    push_padded(&mut v, second as u64, 2);
    let r = string_from_chars(v.as_slice());
    assert(r@ =~= spec_format_time(year, month, day, hour, minute, second));
    r
}

/// A timestamp as the message views show it, in its own offset:
/// `YYYY-MM-DD hh:mm:ss`.
pub fn format_time(t: Timestamp) -> (r: String)
    ensures
        r@ == spec_format_time(t.year, t.month, t.day, t.hour, t.minute, t.second),
{
    format_time_parts(t.year, t.month, t.day, t.hour, t.minute, t.second)
}

} // verus!
